//! The facts about a disk that a probe reads, as a mathematical value.
//!
//! Nothing here runs. The model says what a probe of a given disk holds, so
//! that what the commands do can be stated over disks.

use crate::state::{classify, ProbeView, StateView, TargetView};
use vstd::prelude::*;

verus! {

/// What sits at a path itself, symlinks not followed.
pub enum Node {
    /// A file, a directory or anything else that is no symlink.
    Other,
    /// A symlink, with what it holds where that can be read.
    Symlink { destination: Option<Seq<char>> },
}

/// A disk, as far as a probe can tell.
pub struct Disk {
    /// The paths that exist when symlinks are followed.
    pub present: Set<Seq<char>>,
    /// What sits at each path at which anything sits.
    pub nodes: Map<Seq<char>, Node>,
    /// The canonical form of each path that has one.
    pub canonical: Map<Seq<char>, Seq<char>>,
}

impl Disk {
    /// The canonical form of `path`, where it has one.
    pub open spec fn resolve(self, path: Seq<char>) -> Option<Seq<char>> {
        if self.canonical.contains_key(path) {
            Some(self.canonical[path])
        } else {
            None
        }
    }

    /// What is found at `target`.
    pub open spec fn look(self, target: Seq<char>) -> TargetView {
        if !self.nodes.contains_key(target) {
            TargetView::Absent
        } else {
            match self.nodes[target] {
                Node::Other => TargetView::Occupied,
                Node::Symlink { destination: None } => TargetView::Unreadable,
                Node::Symlink { destination: Some(held) } => TargetView::Link {
                    destination: held,
                    resolved: self.resolve(held),
                },
            }
        }
    }

    /// What a probe of `source` and `target` holds on this disk.
    pub open spec fn probe(self, source: Seq<char>, target: Seq<char>) -> ProbeView {
        ProbeView {
            source_exists: self.present.contains(source),
            source_resolved: self.resolve(source),
            target: self.look(target),
        }
    }

    /// The state of the pair on this disk.
    pub open spec fn state(self, source: Seq<char>, target: Seq<char>) -> StateView {
        classify(source, self.probe(source, target))
    }

    /// Whether `target` is a symlink that holds exactly `source`.
    pub open spec fn links(self, target: Seq<char>, source: Seq<char>) -> bool {
        self.nodes.contains_key(target) && self.nodes[target] == Node::Symlink {
            destination: Some(source),
        }
    }
}

} // verus!
