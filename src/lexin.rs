use vstd::prelude::*;

verus! {

/// lib_lexin's section rule: text from `start` to `end`, tagged `name`. Its
/// fields are public strings, read as they are.
#[verifier::external_type_specification]
pub struct ExSection(lib_lexin::Section);

} // verus!
