use vstd::prelude::*;

verus! {

#[verifier::external_type_specification]
#[verifier::external_body]
pub struct ExAnyhowError(anyhow::Error);

/// An error answered to an HTTP request.
pub struct HttpResponseError(pub anyhow::Error);

} // verus!
