use vstd::prelude::*;

use crate::contract::pipeline::{BuildAction, BuildProcess, BuildStage, runs};
use crate::contract::Contract;
use crate::fs_path::{join, path_join};
use crate::text::string_views;

verus! {

/// The Go compiler.
pub open spec fn go_compiler() -> Seq<char> {
    "go"@
}

/// The linker flags of a chaincode binary: stripped and statically linked.
pub open spec fn chaincode_ldflags() -> Seq<char> {
    "-w -extldflags \"-static\""@
}

/// The compiler arguments for the chaincode in `path`: the binary is
/// written to `path/.build/app`.
pub open spec fn chaincode_build_args(path: Seq<char>) -> Seq<Seq<char>> {
    seq!["build"@, "-ldflags"@, chaincode_ldflags(), "-o"@, path_join(path, ".build/app"@), path]
}

/// A contract written in Go.
pub struct Chaincode {}

impl Chaincode {
    /// The contract type that names chaincode.
    pub const TYPE_ID: &'static str = "chaincode";

    pub fn new() -> (res: Self) {
        Chaincode {}
    }
}

impl Contract for Chaincode {
    /// Starts a build: the Go compiler runs in `path` and writes the binary
    /// to `path/.build/app`; the build succeeds when it writes nothing to
    /// its standard error.
    fn build(&self, path: &str) -> (res: (BuildProcess, BuildAction))
        ensures
            res.0.path@ == path@,
            res.0.stage is CompileChaincode,
            runs(res.1, go_compiler(), chaincode_build_args(path@), Some(path@)),
    {
        let binary = join(path, ".build/app");
        let args = vec![
            String::from_str("build"),
            String::from_str("-ldflags"),
            String::from_str("-w -extldflags \"-static\""),
            String::from_str("-o"),
            binary,
            path.to_owned(),
        ];
        proof {
            assert(string_views(args@) =~= chaincode_build_args(path@));
        }
        (
            BuildProcess { path: path.to_owned(), stage: BuildStage::CompileChaincode },
            BuildAction::Run {
                program: String::from_str("go"),
                args,
                current_dir: Some(path.to_owned()),
            },
        )
    }
}

} // verus!
