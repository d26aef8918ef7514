use vstd::prelude::*;

verus! {

/// A request to build a contract.
pub struct Contract {
    pub name: String,
    pub contract_type: String,
    pub channel: String,
    pub path: String,
}

} // verus!
