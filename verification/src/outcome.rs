//! What each command does with an entry in a given state, and how the
//! results of a run are counted.

use crate::state::{State, StateView};
use vstd::prelude::*;

verus! {

/// The three commands.
#[derive(Clone, Copy, Debug, PartialEq, Eq)]
pub enum Subcommand {
    /// Create the symlinks that are missing.
    Link,
    /// Report the state of every entry.
    Status,
    /// Remove the symlinks that point at their source.
    Unlink,
}

/// Why an entry counts as an error.
#[derive(Clone, Copy, Debug, PartialEq, Eq)]
pub enum Failure {
    /// `link` found no source to link to.
    SourceMissing,
    /// `link` found the target taken by something that is no symlink.
    Conflict,
    /// `link` found a symlink at the target that points elsewhere.
    Misdirected,
    /// The directory that should hold the target could not be created.
    ParentDirectory,
    /// The symlink could not be created.
    Symlink,
    /// The symlink could not be removed.
    Removal,
}

/// The result of a command for one entry.
#[derive(Clone, Copy, Debug, PartialEq, Eq)]
pub enum Outcome {
    /// `link` created the symlink.
    Created,
    /// `unlink` removed the symlink.
    Removed,
    /// Nothing to do: `link` found the entry linked, `unlink` found it not
    /// linked.
    Skipped,
    /// `unlink` left alone a target that is not a symlink to the source.
    Refused,
    /// The entry could not be brought to where the command wants it.
    Failed(Failure),
    /// `status` found the entry linked.
    Linked,
    /// `status` found the target missing.
    Missing,
    /// `status` found the entry in any other state.
    Conflict,
}

/// What a command does next with an entry whose state is known.
#[derive(Clone, Copy, Debug, PartialEq, Eq)]
pub enum Plan {
    /// Nothing on disk; the entry's outcome is already decided.
    Settle(Outcome),
    /// Create the symlink, and the directories above it where they are
    /// missing.
    Create,
    /// Remove the symlink.
    Remove,
}

/// The plan of `subcommand` for an entry in `state`.
///
/// Only a missing target is ever created and only a correct symlink is ever
/// removed; `status` never touches the disk.
pub open spec fn plan(subcommand: Subcommand, state: StateView) -> Plan {
    match subcommand {
        Subcommand::Link => match state {
            StateView::Linked => Plan::Settle(Outcome::Skipped),
            StateView::Missing => Plan::Create,
            StateView::Conflict => Plan::Settle(Outcome::Failed(Failure::Conflict)),
            StateView::Misdirected { .. } => Plan::Settle(Outcome::Failed(Failure::Misdirected)),
            StateView::SourceMissing => Plan::Settle(Outcome::Failed(Failure::SourceMissing)),
        },
        Subcommand::Status => match state {
            StateView::Linked => Plan::Settle(Outcome::Linked),
            StateView::Missing => Plan::Settle(Outcome::Missing),
            _ => Plan::Settle(Outcome::Conflict),
        },
        Subcommand::Unlink => match state {
            StateView::Linked => Plan::Remove,
            StateView::Missing => Plan::Settle(Outcome::Skipped),
            StateView::SourceMissing => Plan::Settle(Outcome::Skipped),
            _ => Plan::Settle(Outcome::Refused),
        },
    }
}

impl Subcommand {
    /// What this command does next with an entry in `state`.
    pub fn plan(self, state: &State) -> (next: Plan)
        ensures
            next == plan(self, state@),
    {
        match self {
            Subcommand::Link => match state {
                State::Linked => Plan::Settle(Outcome::Skipped),
                State::Missing => Plan::Create,
                State::Conflict => Plan::Settle(Outcome::Failed(Failure::Conflict)),
                State::Misdirected { .. } => Plan::Settle(Outcome::Failed(Failure::Misdirected)),
                State::SourceMissing => Plan::Settle(Outcome::Failed(Failure::SourceMissing)),
            },
            Subcommand::Status => match state {
                State::Linked => Plan::Settle(Outcome::Linked),
                State::Missing => Plan::Settle(Outcome::Missing),
                _ => Plan::Settle(Outcome::Conflict),
            },
            Subcommand::Unlink => match state {
                State::Linked => Plan::Remove,
                State::Missing => Plan::Settle(Outcome::Skipped),
                State::SourceMissing => Plan::Settle(Outcome::Skipped),
                _ => Plan::Settle(Outcome::Refused),
            },
        }
    }
}

/// The three counters of a summary, in the order in which they are shown.
#[derive(Clone, Copy, Debug, PartialEq, Eq)]
pub enum Column {
    /// Entries that are, or now are, as the command wants them: created,
    /// removed, linked.
    First,
    /// Entries that were passed over: skipped, refused, missing.
    Second,
    /// Entries in trouble: errors, conflicts.
    Third,
}

impl Outcome {
    /// The counter under which an outcome is counted.
    pub open spec fn column(self) -> Column {
        match self {
            Outcome::Created => Column::First,
            Outcome::Removed => Column::First,
            Outcome::Linked => Column::First,
            Outcome::Skipped => Column::Second,
            Outcome::Refused => Column::Second,
            Outcome::Missing => Column::Second,
            Outcome::Failed(_) => Column::Third,
            Outcome::Conflict => Column::Third,
        }
    }

    /// Whether a command can end an entry in this outcome.
    pub open spec fn belongs_to(self, subcommand: Subcommand) -> bool {
        match subcommand {
            Subcommand::Link => self is Created || self is Skipped || (self matches Outcome::Failed(
                why,
            ) && why != Failure::Removal),
            Subcommand::Status => self is Linked || self is Missing || self is Conflict,
            Subcommand::Unlink => self is Removed || self is Skipped || self is Refused || self
                == Outcome::Failed(Failure::Removal),
        }
    }

    /// The counter under which this outcome is counted.
    pub fn counted_under(self) -> (column: Column)
        ensures
            column == self.column(),
    {
        match self {
            Outcome::Created => Column::First,
            Outcome::Removed => Column::First,
            Outcome::Linked => Column::First,
            Outcome::Skipped => Column::Second,
            Outcome::Refused => Column::Second,
            Outcome::Missing => Column::Second,
            Outcome::Failed(_) => Column::Third,
            Outcome::Conflict => Column::Third,
        }
    }
}

/// How many of `outcomes` are counted under `column`.
pub open spec fn count(outcomes: Seq<Outcome>, column: Column) -> nat
    decreases outcomes.len(),
{
    if outcomes.len() == 0 {
        0
    } else {
        count(outcomes.drop_last(), column) + if outcomes.last().column() == column {
            1nat
        } else {
            0nat
        }
    }
}

/// Counting one more outcome raises its own counter by one and no other.
pub proof fn lemma_count_push(outcomes: Seq<Outcome>, outcome: Outcome, column: Column)
    ensures
        count(outcomes.push(outcome), column) == count(outcomes, column) + if outcome.column()
            == column {
            1nat
        } else {
            0nat
        },
{
    assert(outcomes.push(outcome).drop_last() =~= outcomes);
}

/// Every outcome is counted exactly once: the three counters add up to the
/// number of outcomes.
pub proof fn lemma_counts_add_up(outcomes: Seq<Outcome>)
    ensures
        count(outcomes, Column::First) + count(outcomes, Column::Second) + count(
            outcomes,
            Column::Third,
        ) == outcomes.len(),
    decreases outcomes.len(),
{
    if outcomes.len() > 0 {
        lemma_counts_add_up(outcomes.drop_last());
    }
}

/// The counters that a command shows when it is done.
#[derive(Clone, Copy, Debug, PartialEq, Eq)]
pub enum Summary {
    Link { created: usize, skipped: usize, errors: usize },
    Status { linked: usize, missing: usize, conflicts: usize },
    Unlink { removed: usize, skipped: usize, errors: usize },
}

impl Summary {
    /// The command that the summary is of.
    pub open spec fn subcommand(self) -> Subcommand {
        match self {
            Summary::Link { .. } => Subcommand::Link,
            Summary::Status { .. } => Subcommand::Status,
            Summary::Unlink { .. } => Subcommand::Unlink,
        }
    }

    /// The value of one counter.
    pub open spec fn at(self, column: Column) -> nat {
        match self {
            Summary::Link { created, skipped, errors } => match column {
                Column::First => created as nat,
                Column::Second => skipped as nat,
                Column::Third => errors as nat,
            },
            Summary::Status { linked, missing, conflicts } => match column {
                Column::First => linked as nat,
                Column::Second => missing as nat,
                Column::Third => conflicts as nat,
            },
            Summary::Unlink { removed, skipped, errors } => match column {
                Column::First => removed as nat,
                Column::Second => skipped as nat,
                Column::Third => errors as nat,
            },
        }
    }

    /// The number of entries counted.
    pub open spec fn total(self) -> nat {
        self.at(Column::First) + self.at(Column::Second) + self.at(Column::Third)
    }

    /// Whether this is the summary of `subcommand` over `outcomes`.
    pub open spec fn tallies(self, subcommand: Subcommand, outcomes: Seq<Outcome>) -> bool {
        &&& self.subcommand() == subcommand
        &&& self.at(Column::First) == count(outcomes, Column::First)
        &&& self.at(Column::Second) == count(outcomes, Column::Second)
        &&& self.at(Column::Third) == count(outcomes, Column::Third)
    }

    /// The summary of a command before its first entry.
    pub fn new(subcommand: Subcommand) -> (summary: Summary)
        ensures
            summary.tallies(subcommand, Seq::empty()),
    {
        match subcommand {
            Subcommand::Link => Summary::Link { created: 0, skipped: 0, errors: 0 },
            Subcommand::Status => Summary::Status { linked: 0, missing: 0, conflicts: 0 },
            Subcommand::Unlink => Summary::Unlink { removed: 0, skipped: 0, errors: 0 },
        }
    }

    /// The counters as numbers, in the order in which they are shown.
    pub fn counters(self) -> (numbers: (usize, usize, usize))
        ensures
            numbers.0 == self.at(Column::First),
            numbers.1 == self.at(Column::Second),
            numbers.2 == self.at(Column::Third),
    {
        match self {
            Summary::Link { created, skipped, errors } => (created, skipped, errors),
            Summary::Status { linked, missing, conflicts } => (linked, missing, conflicts),
            Summary::Unlink { removed, skipped, errors } => (removed, skipped, errors),
        }
    }

    /// Counts one more outcome.
    pub fn record(self, outcome: Outcome) -> (summary: Summary)
        requires
            self.total() < usize::MAX,
        ensures
            summary.subcommand() == self.subcommand(),
            forall|column: Column|
                #[trigger] summary.at(column) == self.at(column) + if outcome.column() == column {
                    1nat
                } else {
                    0nat
                },
    {
        let (first, second, third) = self.counters();
        let (first, second, third) = match outcome.counted_under() {
            Column::First => (first + 1, second, third),
            Column::Second => (first, second + 1, third),
            Column::Third => (first, second, third + 1),
        };
        match self {
            Summary::Link { .. } => Summary::Link {
                created: first,
                skipped: second,
                errors: third,
            },
            Summary::Status { .. } => Summary::Status {
                linked: first,
                missing: second,
                conflicts: third,
            },
            Summary::Unlink { .. } => Summary::Unlink {
                removed: first,
                skipped: second,
                errors: third,
            },
        }
    }

    /// The summary of `subcommand` over `outcomes`: each outcome counted
    /// once, under its own counter.
    pub fn of(subcommand: Subcommand, outcomes: &Vec<Outcome>) -> (summary: Summary)
        ensures
            summary.tallies(subcommand, outcomes@),
    {
        let mut summary = Summary::new(subcommand);
        let mut done: usize = 0;
        while done < outcomes.len()
            invariant
                done <= outcomes.len(),
                summary.tallies(subcommand, outcomes@.take(done as int)),
            decreases outcomes.len() - done,
        {
            proof {
                let seen = outcomes@.take(done as int);
                lemma_counts_add_up(seen);
                lemma_count_push(seen, outcomes@[done as int], Column::First);
                lemma_count_push(seen, outcomes@[done as int], Column::Second);
                lemma_count_push(seen, outcomes@[done as int], Column::Third);
                assert(outcomes@.take(done + 1) =~= seen.push(outcomes@[done as int]));
            }
            summary = summary.record(outcomes[done]);
            done += 1;
        }
        assert(outcomes@.take(done as int) =~= outcomes@);
        summary
    }
}

} // verus!
