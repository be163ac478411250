//! A link as the configuration names it.

use vstd::prelude::*;

verus! {

/// A source and the target path at which it should appear as a symlink.
#[derive(Clone, Debug, PartialEq, Eq)]
pub struct Link {
    pub source: String,
    pub target: String,
}

/// The mathematical value of a [`Link`].
pub struct LinkView {
    pub source: Seq<char>,
    pub target: Seq<char>,
}

impl View for Link {
    type V = LinkView;

    open spec fn view(&self) -> LinkView {
        LinkView { source: self.source@, target: self.target@ }
    }
}

} // verus!
