//! The kinds of contract the runtime builds, and how each is built.
pub mod chaincode;
pub mod pipeline;
pub mod solidity;

use vstd::prelude::*;

use crate::contract::chaincode::{chaincode_build_args, go_compiler, Chaincode};
use crate::contract::pipeline::{lists, runs, BuildAction, BuildProcess};
use crate::contract::solidity::Solidity;

verus! {

/// A contract that can be built from its source directory.
pub trait Contract {
    /// Starts building the contract whose sources are in `path`: the build
    /// state, and the first action it asks for.
    fn build(&self, path: &str) -> (BuildProcess, BuildAction);
}

/// A contract of one of the supported types.
pub enum ContractKind {
    Chaincode(Chaincode),
    Solidity(Solidity),
}

/// A chaincode build starts by running the Go compiler in `path`.
pub open spec fn starts_chaincode_build(path: Seq<char>, res: (BuildProcess, BuildAction)) -> bool {
    &&& res.0.path@ == path
    &&& res.0.stage is CompileChaincode
    &&& runs(res.1, go_compiler(), chaincode_build_args(path), Some(path))
}

/// A Solidity build starts by listing the sources in `path`.
pub open spec fn starts_solidity_build(path: Seq<char>, res: (BuildProcess, BuildAction)) -> bool {
    &&& res.0.path@ == path
    &&& res.0.stage is ListSoliditySources
    &&& lists(res.1, path, "sol"@)
}

impl ContractKind {
    /// Starts building the contract whose sources are in `path`.
    pub fn build(&self, path: &str) -> (res: (BuildProcess, BuildAction))
        ensures
            self is Chaincode ==> starts_chaincode_build(path@, res),
            self is Solidity ==> starts_solidity_build(path@, res),
    {
        match self {
            ContractKind::Chaincode(c) => c.build(path),
            ContractKind::Solidity(s) => s.build(path),
        }
    }
}

/// Why no contract could be made.
#[derive(Debug, PartialEq)]
pub enum ContractError {
    /// The contract type is not supported ("unsupported contract type").
    Unsupported,
}

impl ContractError {
    /// The message that describes the error.
    pub fn message(&self) -> (res: String)
        ensures
            res@ == "unsupported contract type"@,
    {
        match self {
            ContractError::Unsupported => String::from_str("unsupported contract type"),
        }
    }
}

/// The contract of type `typ`: `chaincode` or `solidity`; any other type
/// is not supported.
pub fn new(typ: &str) -> (res: Result<ContractKind, ContractError>)
    ensures
        typ@ == "chaincode"@ <==> res matches Ok(ContractKind::Chaincode(_)),
        typ@ == "solidity"@ <==> res matches Ok(ContractKind::Solidity(_)),
        res is Err <==> (typ@ != "chaincode"@ && typ@ != "solidity"@),
{
    proof {
        reveal_strlit("chaincode");
        reveal_strlit("solidity");
        assert("chaincode"@.len() != "solidity"@.len());
    }
    if crate::text::same_text(typ, Chaincode::TYPE_ID) {
        Ok(ContractKind::Chaincode(Chaincode::new()))
    } else if crate::text::same_text(typ, Solidity::TYPE_ID) {
        Ok(ContractKind::Solidity(Solidity::new()))
    } else {
        Err(ContractError::Unsupported)
    }
}

} // verus!
