//! Declares the outside types of the `hcl` crate that signatures in this
//! crate carry opaquely.

use vstd::prelude::*;

verus! {

/// Declares hcl's value type; the bridge converts it to and from this
/// crate's own value model.
#[verifier::external_type_specification]
#[verifier::external_body]
pub struct ExHclValue(hcl::Value);

} // verus!
