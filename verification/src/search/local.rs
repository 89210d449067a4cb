use vstd::prelude::*;

verus! {

/// The local search provider. Searching is scored with floating point, so it is done
/// outside this library; locally it finds nothing yet.
#[derive(Debug, Default, Clone, Copy)]
pub struct LocalSearch;

} // verus!
