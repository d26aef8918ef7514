use vstd::prelude::*;

use crate::contract::pipeline::{BuildAction, BuildProcess, BuildStage, lists};
use crate::contract::Contract;

verus! {

/// A contract written in Solidity.
pub struct Solidity {}

impl Solidity {
    /// The contract type that names Solidity.
    pub const TYPE_ID: &'static str = "solidity";

    pub fn new() -> (res: Self) {
        Solidity {}
    }
}

impl Contract for Solidity {
    /// Starts a build: first the Solidity sources in `path` are listed.
    fn build(&self, path: &str) -> (res: (BuildProcess, BuildAction))
        ensures
            res.0.path@ == path@,
            res.0.stage is ListSoliditySources,
            lists(res.1, path@, "sol"@),
    {
        (
            BuildProcess { path: path.to_owned(), stage: BuildStage::ListSoliditySources },
            BuildAction::ListFiles { dir: path.to_owned(), extension: String::from_str("sol") },
        )
    }
}

} // verus!
