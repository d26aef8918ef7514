use vstd::prelude::*;

verus! {

/// The settings of the runtime.
pub struct Config {
    /// The address the server listens on.
    pub server_address: String,
    /// The directory that holds the runtime's data.
    pub data_path: String,
}

} // verus!
