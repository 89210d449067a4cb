use vstd::prelude::*;

verus! {

/// An edge of a dependency graph: `dependent` requires `contract`, which `provider` offers.
#[derive(Debug, Clone, PartialEq, Eq)]
pub struct DependencyEdge {
    pub provider: String,
    pub dependent: String,
    pub contract: String,
}

impl DeepView for DependencyEdge {
    type V = (Seq<char>, Seq<char>, Seq<char>);

    open spec fn deep_view(&self) -> (Seq<char>, Seq<char>, Seq<char>) {
        (self.provider@, self.dependent@, self.contract@)
    }
}

} // verus!
