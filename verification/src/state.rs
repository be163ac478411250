//! The five states a link can be in, and how one look at the disk decides
//! between them.

use crate::path::text_of;
use vstd::prelude::*;

verus! {

/// How a target path stands to the source it is meant to link to.
#[derive(Clone, Debug, PartialEq, Eq)]
pub enum State {
    /// The target exists but is no symlink, or is a symlink that cannot be read.
    Conflict,
    /// The target is a symlink that resolves to the source.
    Linked,
    /// The target is a symlink that resolves elsewhere; `actual` is its
    /// destination as written in the link.
    Misdirected { actual: String },
    /// The source exists and nothing is at the target.
    Missing,
    /// The source does not exist.
    SourceMissing,
}

/// The mathematical value of a [`State`].
pub enum StateView {
    Conflict,
    Linked,
    Misdirected { actual: Seq<char> },
    Missing,
    SourceMissing,
}

impl View for State {
    type V = StateView;

    open spec fn view(&self) -> StateView {
        match self {
            State::Conflict => StateView::Conflict,
            State::Linked => StateView::Linked,
            State::Misdirected { actual } => StateView::Misdirected { actual: actual@ },
            State::Missing => StateView::Missing,
            State::SourceMissing => StateView::SourceMissing,
        }
    }
}

/// What was found at a target path, without following a symlink there.
#[derive(Clone, Debug, PartialEq, Eq)]
pub enum Target {
    /// Nothing could be found at the path.
    Absent,
    /// Something other than a symlink.
    Occupied,
    /// A symlink whose destination could not be read.
    Unreadable,
    /// A symlink: `destination` is what the link holds, as written, and
    /// `resolved` its canonical form where it has one.
    Link { destination: String, resolved: Option<String> },
}

/// The mathematical value of a [`Target`].
pub enum TargetView {
    Absent,
    Occupied,
    Unreadable,
    Link { destination: Seq<char>, resolved: Option<Seq<char>> },
}

impl View for Target {
    type V = TargetView;

    open spec fn view(&self) -> TargetView {
        match self {
            Target::Absent => TargetView::Absent,
            Target::Occupied => TargetView::Occupied,
            Target::Unreadable => TargetView::Unreadable,
            Target::Link { destination, resolved } => TargetView::Link {
                destination: destination@,
                resolved: text_of(*resolved),
            },
        }
    }
}

/// One look at the disk for a pair of source and target.
#[derive(Clone, Debug, PartialEq, Eq)]
pub struct Probe {
    /// Whether the source exists, symlinks followed.
    pub source_exists: bool,
    /// The canonical form of the source, where it has one.
    pub source_resolved: Option<String>,
    /// What is at the target.
    pub target: Target,
}

/// The mathematical value of a [`Probe`].
pub struct ProbeView {
    pub source_exists: bool,
    pub source_resolved: Option<Seq<char>>,
    pub target: TargetView,
}

impl View for Probe {
    type V = ProbeView;

    open spec fn view(&self) -> ProbeView {
        ProbeView {
            source_exists: self.source_exists,
            source_resolved: text_of(self.source_resolved),
            target: self.target@,
        }
    }
}

/// The path by which two places are compared: the canonical form where
/// there is one, else the path as written.
pub open spec fn comparand(resolved: Option<Seq<char>>, written: Seq<char>) -> Seq<char> {
    match resolved {
        Some(canonical) => canonical,
        None => written,
    }
}

/// The state that a probe of `source` and its target shows.
///
/// The source is looked at first: without it nothing else counts. Then the
/// target decides, and only a readable symlink is compared with the source.
pub open spec fn classify(source: Seq<char>, probe: ProbeView) -> StateView {
    if !probe.source_exists {
        StateView::SourceMissing
    } else {
        match probe.target {
            TargetView::Absent => StateView::Missing,
            TargetView::Occupied => StateView::Conflict,
            TargetView::Unreadable => StateView::Conflict,
            TargetView::Link { destination, resolved } => {
                if comparand(probe.source_resolved, source) == comparand(resolved, destination) {
                    StateView::Linked
                } else {
                    StateView::Misdirected { actual: destination }
                }
            },
        }
    }
}

/// The canonical form where there is one, else the path as written.
pub fn canonical_or_written(resolved: &Option<String>, written: &str) -> (path: String)
    ensures
        path@ == comparand(text_of(*resolved), written@),
{
    match resolved {
        Some(canonical) => canonical.clone(),
        None => written.to_owned(),
    }
}

impl State {
    /// Classifies the pair that `probe` was taken of.
    pub fn get(source: &str, probe: &Probe) -> (state: State)
        ensures
            state@ == classify(source@, probe@),
    {
        if !probe.source_exists {
            return State::SourceMissing;
        }
        match &probe.target {
            Target::Absent => State::Missing,
            Target::Occupied => State::Conflict,
            Target::Unreadable => State::Conflict,
            Target::Link { destination, resolved } => {
                let ours = canonical_or_written(&probe.source_resolved, source);
                let theirs = canonical_or_written(resolved, destination.as_str());
                if ours == theirs {
                    State::Linked
                } else {
                    State::Misdirected { actual: destination.clone() }
                }
            },
        }
    }
}

} // verus!
