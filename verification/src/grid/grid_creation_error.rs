use vstd::prelude::*;

verus! {

/// The failure of building a grid from row data whose rows do not all
/// have the same length.
#[derive(Debug, Clone)]
pub struct GridCreationError {}

} // verus!
