//! One run of a command over the entries, as a machine that asks for one
//! thing at a time to be done on disk and takes back what came of it.
//!
//! The machine never touches the disk. Whoever drives it reads
//! [`Run::request`], does what it asks, and hands the result to
//! [`Run::advance`], until the request is [`Request::Finished`].
//!
//! The entries are taken one after the other, each probed only when the one
//! before it is done. Two entries that name the same target are therefore
//! not told apart beforehand: the second is classified against what the
//! first left, and comes out linked or misdirected as its source is the
//! same or another.

use crate::link::Link;
use crate::outcome::{count, Column, Failure, Outcome, Plan, Subcommand, Summary};
use crate::outcome::plan;
use crate::path::{parent_of, parent_path};
use crate::state::{classify, Probe, ProbeView, State, StateView};
use vstd::prelude::*;

verus! {

/// A named link with its paths resolved, as a mathematical value.
pub struct EntryView {
    pub name: Seq<char>,
    pub source: Seq<char>,
    pub target: Seq<char>,
}

/// The mathematical value of one named link.
pub open spec fn entry_view(entry: (&str, Link)) -> EntryView {
    EntryView { name: entry.0@, source: entry.1.source@, target: entry.1.target@ }
}

/// The mathematical value of a list of named links.
pub open spec fn entries_view(entries: Seq<(&str, Link)>) -> Seq<EntryView> {
    Seq::new(entries.len(), |i: int| entry_view(entries[i]))
}

/// The mathematical value of a list of states.
pub open spec fn states_view(states: Seq<State>) -> Seq<StateView> {
    Seq::new(states.len(), |i: int| states[i]@)
}

/// What a run is waiting for.
#[derive(Clone, Copy, Debug, PartialEq, Eq)]
pub enum Phase {
    /// The probe of the current entry.
    Probing,
    /// Whether the directory above the current target exists.
    CheckingParent,
    /// The creation of the directories above the current target.
    CreatingParent,
    /// The creation of the current symlink.
    Linking,
    /// The removal of the current symlink.
    Removing,
    /// Nothing: every entry has its outcome.
    Finished,
}

/// What a run asks to be done on disk.
#[derive(Clone, Debug, PartialEq, Eq)]
pub enum Request {
    /// Look at `source` and `target` and report what is there.
    Probe { source: String, target: String },
    /// Report whether `path` exists.
    Exists { path: String },
    /// Create the directory `path` and every directory above it.
    CreateDirectories { path: String },
    /// Create a symlink at `target` that holds `source`.
    Symlink { source: String, target: String },
    /// Remove the symlink at `path`.
    Remove { path: String },
    /// Nothing is left to do.
    Finished,
}

/// The mathematical value of a [`Request`].
pub enum RequestView {
    Probe { source: Seq<char>, target: Seq<char> },
    Exists { path: Seq<char> },
    CreateDirectories { path: Seq<char> },
    Symlink { source: Seq<char>, target: Seq<char> },
    Remove { path: Seq<char> },
    Finished,
}

impl View for Request {
    type V = RequestView;

    open spec fn view(&self) -> RequestView {
        match self {
            Request::Probe { source, target } => RequestView::Probe {
                source: source@,
                target: target@,
            },
            Request::Exists { path } => RequestView::Exists { path: path@ },
            Request::CreateDirectories { path } => RequestView::CreateDirectories { path: path@ },
            Request::Symlink { source, target } => RequestView::Symlink {
                source: source@,
                target: target@,
            },
            Request::Remove { path } => RequestView::Remove { path: path@ },
            Request::Finished => RequestView::Finished,
        }
    }
}

impl RequestView {
    /// Whether carrying out the request changes anything on disk.
    pub open spec fn mutates(self) -> bool {
        self is CreateDirectories || self is Symlink || self is Remove
    }
}

/// What came of a request.
#[derive(Clone, Debug, PartialEq, Eq)]
pub enum Reply {
    /// What a probe found.
    Probed(Probe),
    /// Whether the path exists.
    Exists(bool),
    /// Whether the change was made.
    Done(bool),
}

/// The mathematical value of a [`Reply`].
pub enum ReplyView {
    Probed(ProbeView),
    Exists(bool),
    Done(bool),
}

impl View for Reply {
    type V = ReplyView;

    open spec fn view(&self) -> ReplyView {
        match self {
            Reply::Probed(probe) => ReplyView::Probed(probe@),
            Reply::Exists(found) => ReplyView::Exists(*found),
            Reply::Done(ok) => ReplyView::Done(*ok),
        }
    }
}

/// A run as a mathematical value.
///
/// The entry at work is the one after those that have their outcome.
/// `states` holds the state of every entry that was probed, in order.
pub struct RunView {
    pub subcommand: Subcommand,
    pub entries: Seq<EntryView>,
    pub states: Seq<StateView>,
    pub outcomes: Seq<Outcome>,
    pub phase: Phase,
}

/// Whether `outcome` is one that `subcommand` can reach from `state`.
pub open spec fn follows(subcommand: Subcommand, state: StateView, outcome: Outcome) -> bool {
    match plan(subcommand, state) {
        Plan::Settle(decided) => outcome == decided,
        Plan::Create => outcome is Created || outcome == Outcome::Failed(Failure::ParentDirectory)
            || outcome == Outcome::Failed(Failure::Symlink),
        Plan::Remove => outcome is Removed || outcome == Outcome::Failed(Failure::Removal),
    }
}

impl RunView {
    /// The run of `subcommand` over `entries` before anything was done.
    pub open spec fn start(subcommand: Subcommand, entries: Seq<EntryView>) -> RunView {
        RunView {
            subcommand,
            entries,
            states: Seq::empty(),
            outcomes: Seq::empty(),
            phase: if entries.len() == 0 {
                Phase::Finished
            } else {
                Phase::Probing
            },
        }
    }

    /// The entry at work.
    pub open spec fn current(self) -> EntryView
        recommends
            self.outcomes.len() < self.entries.len(),
    {
        self.entries[self.outcomes.len() as int]
    }

    /// What holds of every run that was started and advanced.
    pub open spec fn wf(self) -> bool {
        &&& self.outcomes.len() <= self.entries.len()
        &&& self.phase is Finished <==> self.outcomes.len() == self.entries.len()
        &&& self.states.len() == self.outcomes.len() + if self.phase is Probing || self.phase
            is Finished {
            0nat
        } else {
            1nat
        }
        &&& forall|i: int|
            0 <= i < self.outcomes.len() ==> follows(
                self.subcommand,
                #[trigger] self.states[i],
                self.outcomes[i],
            )
        &&& match self.phase {
            Phase::CheckingParent | Phase::CreatingParent => {
                &&& plan(self.subcommand, self.states.last()) is Create
                &&& parent_path(self.current().target) is Some
            },
            Phase::Linking => plan(self.subcommand, self.states.last()) is Create,
            Phase::Removing => plan(self.subcommand, self.states.last()) is Remove,
            _ => true,
        }
    }

    /// The run with `outcome` for the entry at work, and on to the next entry.
    pub open spec fn settle(self, outcome: Outcome) -> RunView {
        RunView {
            outcomes: self.outcomes.push(outcome),
            phase: if self.outcomes.len() + 1 == self.entries.len() {
                Phase::Finished
            } else {
                Phase::Probing
            },
            ..self
        }
    }

    /// What the run asks for.
    pub open spec fn request(self) -> RequestView {
        match self.phase {
            Phase::Probing => RequestView::Probe {
                source: self.current().source,
                target: self.current().target,
            },
            Phase::CheckingParent => RequestView::Exists {
                path: parent_path(self.current().target).unwrap(),
            },
            Phase::CreatingParent => RequestView::CreateDirectories {
                path: parent_path(self.current().target).unwrap(),
            },
            Phase::Linking => RequestView::Symlink {
                source: self.current().source,
                target: self.current().target,
            },
            Phase::Removing => RequestView::Remove { path: self.current().target },
            Phase::Finished => RequestView::Finished,
        }
    }

    /// The run after `reply` came back for its request. A reply of a kind
    /// that the request does not call for leaves the run as it is.
    pub open spec fn step(self, reply: ReplyView) -> RunView {
        match (self.phase, reply) {
            (Phase::Probing, ReplyView::Probed(probe)) => {
                let state = classify(self.current().source, probe);
                let probed = RunView { states: self.states.push(state), ..self };
                match plan(self.subcommand, state) {
                    Plan::Settle(outcome) => probed.settle(outcome),
                    Plan::Create => RunView {
                        phase: if parent_path(self.current().target) is Some {
                            Phase::CheckingParent
                        } else {
                            Phase::Linking
                        },
                        ..probed
                    },
                    Plan::Remove => RunView { phase: Phase::Removing, ..probed },
                }
            },
            (Phase::CheckingParent, ReplyView::Exists(found)) => RunView {
                phase: if found {
                    Phase::Linking
                } else {
                    Phase::CreatingParent
                },
                ..self
            },
            (Phase::CreatingParent, ReplyView::Done(ok)) => if ok {
                RunView { phase: Phase::Linking, ..self }
            } else {
                self.settle(Outcome::Failed(Failure::ParentDirectory))
            },
            (Phase::Linking, ReplyView::Done(ok)) => self.settle(
                if ok {
                    Outcome::Created
                } else {
                    Outcome::Failed(Failure::Symlink)
                },
            ),
            (Phase::Removing, ReplyView::Done(ok)) => self.settle(
                if ok {
                    Outcome::Removed
                } else {
                    Outcome::Failed(Failure::Removal)
                },
            ),
            _ => self,
        }
    }
}

/// A run keeps its shape: what holds of a run before a reply holds after it.
pub proof fn lemma_step_keeps_wf(run: RunView, reply: ReplyView)
    requires
        run.wf(),
    ensures
        run.step(reply).wf(),
        run.step(reply).subcommand == run.subcommand,
        run.step(reply).entries == run.entries,
{
    let next = run.step(reply);
    if next != run {
        assert forall|i: int| 0 <= i < next.outcomes.len() implies follows(
            next.subcommand,
            #[trigger] next.states[i],
            next.outcomes[i],
        ) by {
            if i < run.outcomes.len() {
                assert(next.states[i] == run.states[i]);
                assert(next.outcomes[i] == run.outcomes[i]);
            }
        }
    }
}

/// Why a command failed as a whole.
#[derive(Clone, Copy, Debug, PartialEq, Eq)]
pub struct RunError {
    /// The command that failed.
    pub subcommand: Subcommand,
    /// The number of entries that ended in an error; never zero.
    pub errors: usize,
}

/// What there is to tell of one entry that is done.
#[derive(Clone, Copy, Debug)]
pub struct Report<'r> {
    /// The name of the entry.
    pub name: &'r str,
    /// Its paths, resolved.
    pub link: &'r Link,
    /// The state in which it was found.
    pub state: &'r State,
    /// What came of it.
    pub outcome: Outcome,
}

/// One run of a command over a list of named links.
pub struct Run<'a> {
    subcommand: Subcommand,
    entries: Vec<(&'a str, Link)>,
    states: Vec<State>,
    outcomes: Vec<Outcome>,
    phase: Phase,
}

impl<'a> View for Run<'a> {
    type V = RunView;

    closed spec fn view(&self) -> RunView {
        RunView {
            subcommand: self.subcommand,
            entries: entries_view(self.entries@),
            states: states_view(self.states@),
            outcomes: self.outcomes@,
            phase: self.phase,
        }
    }
}

impl<'a> Run<'a> {
    #[verifier::type_invariant]
    spec fn inv(self) -> bool {
        self@.wf()
    }

    /// Starts a run of `subcommand` over `entries`, in their order.
    pub fn new(subcommand: Subcommand, entries: Vec<(&'a str, Link)>) -> (run: Run<'a>)
        ensures
            run@ == RunView::start(subcommand, entries_view(entries@)),
            run@.wf(),
    {
        let phase = if entries.len() == 0 {
            Phase::Finished
        } else {
            Phase::Probing
        };
        let run = Run { subcommand, entries, states: Vec::new(), outcomes: Vec::new(), phase };
        assert(run@.states =~= Seq::empty());
        run
    }

    /// The command that is run.
    pub fn subcommand(&self) -> (subcommand: Subcommand)
        ensures
            subcommand == self@.subcommand,
    {
        self.subcommand
    }

    /// The entries that the command runs over.
    pub fn entries(&self) -> (entries: &Vec<(&'a str, Link)>)
        ensures
            entries_view(entries@) == self@.entries,
    {
        &self.entries
    }

    /// The state of each entry that was probed so far, in order.
    pub fn states(&self) -> (states: &Vec<State>)
        ensures
            states_view(states@) == self@.states,
    {
        &self.states
    }

    /// The outcome of each entry that is done, in order.
    pub fn outcomes(&self) -> (outcomes: &Vec<Outcome>)
        ensures
            outcomes@ == self@.outcomes,
    {
        &self.outcomes
    }

    /// What the run is waiting for.
    pub fn phase(&self) -> (phase: Phase)
        ensures
            phase == self@.phase,
    {
        self.phase
    }

    /// Whether every entry has its outcome.
    pub fn is_finished(&self) -> (finished: bool)
        ensures
            finished == (self@.phase is Finished),
            finished == (self@.outcomes.len() == self@.entries.len()),
    {
        proof {
            use_type_invariant(self);
        }
        match self.phase {
            Phase::Finished => true,
            _ => false,
        }
    }

    /// What is to be done on disk next.
    pub fn request(&self) -> (request: Request)
        ensures
            request@ == self@.request(),
    {
        proof {
            use_type_invariant(self);
        }
        match self.phase {
            Phase::Finished => Request::Finished,
            _ => {
                let entry = &self.entries[self.outcomes.len()];
                match self.phase {
                    Phase::Probing => Request::Probe {
                        source: entry.1.source.clone(),
                        target: entry.1.target.clone(),
                    },
                    Phase::CheckingParent => {
                        let parent = parent_of(entry.1.target.as_str());
                        Request::Exists { path: parent.unwrap() }
                    },
                    Phase::CreatingParent => {
                        let parent = parent_of(entry.1.target.as_str());
                        Request::CreateDirectories { path: parent.unwrap() }
                    },
                    Phase::Linking => Request::Symlink {
                        source: entry.1.source.clone(),
                        target: entry.1.target.clone(),
                    },
                    _ => Request::Remove { path: entry.1.target.clone() },
                }
            },
        }
    }

    /// Takes what came of the last request and moves on.
    pub fn advance(self, reply: Reply) -> (next: Run<'a>)
        ensures
            next@ == self@.step(reply@),
            next@.wf(),
    {
        proof {
            use_type_invariant(&self);
            lemma_step_keeps_wf(self@, reply@);
        }
        let ghost before = self@;
        let Run { subcommand, entries, mut states, mut outcomes, phase } = self;
        let mut phase = phase;
        match (phase, reply) {
            (Phase::Probing, Reply::Probed(probe)) => {
                let entry = &entries[outcomes.len()];
                let state = State::get(entry.1.source.as_str(), &probe);
                let next = subcommand.plan(&state);
                states.push(state);
                match next {
                    Plan::Settle(outcome) => {
                        outcomes.push(outcome);
                        phase = if outcomes.len() == entries.len() {
                            Phase::Finished
                        } else {
                            Phase::Probing
                        };
                    },
                    Plan::Create => {
                        phase = match parent_of(entry.1.target.as_str()) {
                            Some(_) => Phase::CheckingParent,
                            None => Phase::Linking,
                        };
                    },
                    Plan::Remove => {
                        phase = Phase::Removing;
                    },
                }
            },
            (Phase::CheckingParent, Reply::Exists(found)) => {
                phase = if found {
                    Phase::Linking
                } else {
                    Phase::CreatingParent
                };
            },
            (Phase::CreatingParent, Reply::Done(ok)) => {
                if ok {
                    phase = Phase::Linking;
                } else {
                    outcomes.push(Outcome::Failed(Failure::ParentDirectory));
                    phase = if outcomes.len() == entries.len() {
                        Phase::Finished
                    } else {
                        Phase::Probing
                    };
                }
            },
            (Phase::Linking, Reply::Done(ok)) => {
                outcomes.push(
                    if ok {
                        Outcome::Created
                    } else {
                        Outcome::Failed(Failure::Symlink)
                    },
                );
                phase = if outcomes.len() == entries.len() {
                    Phase::Finished
                } else {
                    Phase::Probing
                };
            },
            (Phase::Removing, Reply::Done(ok)) => {
                outcomes.push(
                    if ok {
                        Outcome::Removed
                    } else {
                        Outcome::Failed(Failure::Removal)
                    },
                );
                phase = if outcomes.len() == entries.len() {
                    Phase::Finished
                } else {
                    Phase::Probing
                };
            },
            _ => {},
        }
        proof {
            let after = RunView {
                subcommand,
                entries: entries_view(entries@),
                states: states_view(states@),
                outcomes: outcomes@,
                phase,
            };
            assert(after.states =~= before.step(reply@).states);
            assert(after == before.step(reply@));
        }
        Run { subcommand, entries, states, outcomes, phase }
    }

    /// What there is to tell of the entry at `index`, once it is done.
    pub fn report(&self, index: usize) -> (report: Option<Report<'_>>)
        ensures
            report is Some <==> index < self@.outcomes.len(),
            report matches Some(told) ==> {
                &&& told.name@ == self@.entries[index as int].name
                &&& told.link@.source == self@.entries[index as int].source
                &&& told.link@.target == self@.entries[index as int].target
                &&& told.state@ == self@.states[index as int]
                &&& told.outcome == self@.outcomes[index as int]
            },
    {
        proof {
            use_type_invariant(self);
        }
        if index < self.outcomes.len() {
            let entry = &self.entries[index];
            Some(
                Report {
                    name: entry.0,
                    link: &entry.1,
                    state: &self.states[index],
                    outcome: self.outcomes[index],
                },
            )
        } else {
            None
        }
    }

    /// The counters of the run so far, or nothing where there are no
    /// entries to count.
    pub fn summary(&self) -> (summary: Option<Summary>)
        ensures
            summary is None <==> self@.entries.len() == 0,
            summary matches Some(s) ==> s.tallies(self@.subcommand, self@.outcomes),
    {
        if self.entries.len() == 0 {
            None
        } else {
            Some(Summary::of(self.subcommand, &self.outcomes))
        }
    }

    /// Whether the command succeeded: `status` always does, the others do
    /// when no entry ended in an error.
    pub fn verdict(&self) -> (verdict: Result<(), RunError>)
        ensures
            verdict is Ok <==> (self@.subcommand is Status || count(self@.outcomes, Column::Third)
                == 0),
            verdict matches Err(e) ==> e.subcommand == self@.subcommand && e.errors == count(
                self@.outcomes,
                Column::Third,
            ),
    {
        let (_, _, errors) = Summary::of(self.subcommand, &self.outcomes).counters();
        match self.subcommand {
            Subcommand::Status => Ok(()),
            _ => if errors == 0 {
                Ok(())
            } else {
                Err(RunError { subcommand: self.subcommand, errors })
            },
        }
    }

    /// The exit status that the command ends with: 0 where it succeeded,
    /// 1 where an entry ended in an error.
    pub fn exit_status(&self) -> (status: u8)
        ensures
            status == if self@.subcommand is Status || count(self@.outcomes, Column::Third) == 0 {
                0u8
            } else {
                1u8
            },
    {
        match self.verdict() {
            Ok(_) => 0,
            Err(_) => 1,
        }
    }
}

} // verus!
