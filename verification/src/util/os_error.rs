use vstd::prelude::*;

verus! {

/// An I/O error of the operating system, carried through unchanged.
#[verifier::external_type_specification]
#[verifier::external_body]
pub struct ExIoError(std::io::Error);

} // verus!
