use vstd::prelude::*;

use crate::contract::pipeline::{BuildAction, BuildProcess};
use crate::contract::{self, starts_chaincode_build, starts_solidity_build, ContractError};

verus! {

/// The operations the runtime offers.
pub struct Service {}

impl Service {
    pub fn new() -> (res: Self) {
        Service {}
    }

    /// Starts building the contract of type `contract_type` whose sources
    /// are in `path`; an unsupported type is refused.
    pub fn build(&self, contract_type: &str, path: &str) -> (res: Result<(BuildProcess, BuildAction), ContractError>)
        ensures
            contract_type@ == "chaincode"@ ==> (res matches Ok(started) && starts_chaincode_build(path@, started)),
            contract_type@ == "solidity"@ ==> (res matches Ok(started) && starts_solidity_build(path@, started)),
            contract_type@ != "chaincode"@ && contract_type@ != "solidity"@ ==> res == Err::<(BuildProcess, BuildAction), ContractError>(ContractError::Unsupported),
    {
        match contract::new(contract_type) {
            Ok(c) => Ok(c.build(path)),
            Err(e) => Err(e),
        }
    }
}

} // verus!
