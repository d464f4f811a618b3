use vstd::prelude::*;

verus! {

/// The region of the source text that a token or a tree node comes from.
/// Nodes and errors only carry it; nothing in the library looks inside it.
#[verifier::external_type_specification]
#[verifier::external_body]
pub struct ExSpan(lrpar::Span);

} // verus!
