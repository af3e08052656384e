//! The HTTP client the parsers share.

use vstd::prelude::*;

verus! {

/// `reqwest::Client`, carried through the parsers and never looked into.
#[verifier::external_type_specification]
#[verifier::external_body]
pub struct ExClient(reqwest::Client);

} // verus!
