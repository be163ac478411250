//! What holds of the commands on every disk and for every entry.

use crate::disk::Disk;
use crate::outcome::{count, lemma_counts_add_up, plan, Column, Failure, Outcome, Plan, Subcommand};
use crate::path::{absolute, joined, parent_path, resolved, tilde_led};
use crate::run::{lemma_step_keeps_wf, EntryView, Phase, ReplyView, RequestView, RunView};
use crate::state::{classify, ProbeView};
use vstd::prelude::*;

verus! {

/// The run at the point where the directory above the target is seen to:
/// found there if `parent_found`, else created.
pub open spec fn past_parent(run: RunView, parent_found: bool) -> RunView {
    match run.phase {
        Phase::CheckingParent => if parent_found {
            run.step(ReplyView::Exists(true))
        } else {
            run.step(ReplyView::Exists(false)).step(ReplyView::Done(true))
        },
        _ => run,
    }
}

/// What the disk answers while one entry is at work. An answer that the
/// run does not come to ask for counts for nothing.
pub struct Answers {
    /// What the probe of the entry shows.
    pub probe: ProbeView,
    /// Whether the directory above the target exists.
    pub parent_found: bool,
    /// Whether the directories above the target could be created.
    pub parent_made: bool,
    /// Whether the symlink could be created, or removed.
    pub changed: bool,
}

/// What comes of an entry under a command, given what the disk answers.
pub open spec fn outcome_of(subcommand: Subcommand, entry: EntryView, answers: Answers) -> Outcome {
    match plan(subcommand, classify(entry.source, answers.probe)) {
        Plan::Settle(outcome) => outcome,
        Plan::Create => if parent_path(entry.target) is Some && !answers.parent_found
            && !answers.parent_made {
            Outcome::Failed(Failure::ParentDirectory)
        } else if answers.changed {
            Outcome::Created
        } else {
            Outcome::Failed(Failure::Symlink)
        },
        Plan::Remove => if answers.changed {
            Outcome::Removed
        } else {
            Outcome::Failed(Failure::Removal)
        },
    }
}

/// The run once the entry at work got every answer that it asked for.
pub open spec fn handled(run: RunView, answers: Answers) -> RunView {
    let probed = run.step(ReplyView::Probed(answers.probe));
    let seen_to = match probed.phase {
        Phase::CheckingParent => {
            let checked = probed.step(ReplyView::Exists(answers.parent_found));
            match checked.phase {
                Phase::CreatingParent => checked.step(ReplyView::Done(answers.parent_made)),
                _ => checked,
            }
        },
        _ => probed,
    };
    match seen_to.phase {
        Phase::Linking | Phase::Removing => seen_to.step(ReplyView::Done(answers.changed)),
        _ => seen_to,
    }
}

/// The run once each of the next entries got its answers, in order.
pub open spec fn handled_all(run: RunView, answers: Seq<Answers>) -> RunView
    decreases answers.len(),
{
    if answers.len() == 0 {
        run
    } else {
        handled_all(handled(run, answers[0]), answers.drop_first())
    }
}

/// An entry ends as its command's table says. Whatever the disk answers,
/// the run ends the entry at work with the outcome that [`outcome_of`]
/// gives, keeps the state in which it found the entry, and is then ready
/// for the next entry or finished.
pub proof fn law_entry_ends_as_planned(run: RunView, answers: Answers)
    requires
        run.wf(),
        run.phase is Probing,
    ensures
        handled(run, answers).wf(),
        handled(run, answers).subcommand == run.subcommand,
        handled(run, answers).entries == run.entries,
        handled(run, answers).outcomes == run.outcomes.push(
            outcome_of(run.subcommand, run.current(), answers),
        ),
        handled(run, answers).states == run.states.push(
            classify(run.current().source, answers.probe),
        ),
        handled(run, answers).phase is Probing || handled(run, answers).phase is Finished,
{
    let probed = run.step(ReplyView::Probed(answers.probe));
    lemma_step_keeps_wf(run, ReplyView::Probed(answers.probe));
    let checked = probed.step(ReplyView::Exists(answers.parent_found));
    lemma_step_keeps_wf(probed, ReplyView::Exists(answers.parent_found));
    let made = checked.step(ReplyView::Done(answers.parent_made));
    lemma_step_keeps_wf(checked, ReplyView::Done(answers.parent_made));
    lemma_step_keeps_wf(probed, ReplyView::Done(answers.changed));
    lemma_step_keeps_wf(checked, ReplyView::Done(answers.changed));
    lemma_step_keeps_wf(made, ReplyView::Done(answers.changed));
}

/// A command is a fold over its entries. Started on `entries` and given
/// the answers of the disk for each of them, a run ends finished, with one
/// outcome for every entry: the one that the command's table gives for that
/// entry alone. No entry's outcome depends on what came of another.
pub proof fn law_run_is_a_fold(
    subcommand: Subcommand,
    entries: Seq<EntryView>,
    answers: Seq<Answers>,
)
    requires
        answers.len() == entries.len(),
    ensures
        ({
            let end = handled_all(RunView::start(subcommand, entries), answers);
            &&& end.wf()
            &&& end.phase is Finished
            &&& end.outcomes.len() == entries.len()
            &&& forall|i: int|
                0 <= i < entries.len() ==> #[trigger] end.outcomes[i] == outcome_of(
                    subcommand,
                    entries[i],
                    answers[i],
                )
            &&& forall|i: int|
                0 <= i < entries.len() ==> #[trigger] end.states[i] == classify(
                    entries[i].source,
                    answers[i].probe,
                )
        }),
{
    lemma_fold_from(RunView::start(subcommand, entries), answers);
}

/// [`law_run_is_a_fold`] from any point between two entries.
proof fn lemma_fold_from(run: RunView, answers: Seq<Answers>)
    requires
        run.wf(),
        run.phase is Probing || run.phase is Finished,
        run.outcomes.len() + answers.len() == run.entries.len(),
    ensures
        ({
            let end = handled_all(run, answers);
            let done = run.outcomes.len() as int;
            &&& end.wf()
            &&& end.phase is Finished
            &&& end.subcommand == run.subcommand
            &&& end.entries == run.entries
            &&& end.outcomes.len() == run.entries.len()
            &&& end.states.len() == run.entries.len()
            &&& forall|i: int| 0 <= i < done ==> #[trigger] end.outcomes[i] == run.outcomes[i]
            &&& forall|i: int| 0 <= i < done ==> #[trigger] end.states[i] == run.states[i]
            &&& forall|i: int|
                done <= i < run.entries.len() ==> #[trigger] end.outcomes[i] == outcome_of(
                    run.subcommand,
                    run.entries[i],
                    answers[i - done],
                )
            &&& forall|i: int|
                done <= i < run.entries.len() ==> #[trigger] end.states[i] == classify(
                    run.entries[i].source,
                    answers[i - done].probe,
                )
        }),
    decreases answers.len(),
{
    if answers.len() > 0 {
        let next = handled(run, answers[0]);
        let rest = answers.drop_first();
        let done = run.outcomes.len() as int;
        law_entry_ends_as_planned(run, answers[0]);
        lemma_fold_from(next, rest);
        let end = handled_all(run, answers);
        assert(end == handled_all(next, rest));
        assert forall|i: int| 0 <= i < done implies #[trigger] end.outcomes[i]
            == run.outcomes[i] by {
            assert(next.outcomes[i] == run.outcomes[i]);
        }
        assert forall|i: int| 0 <= i < done implies #[trigger] end.states[i] == run.states[i] by {
            assert(next.states[i] == run.states[i]);
        }
        assert forall|i: int| done <= i < run.entries.len() implies #[trigger] end.outcomes[i]
            == outcome_of(run.subcommand, run.entries[i], answers[i - done]) by {
            if i == done {
                assert(end.outcomes[i] == next.outcomes[i]);
            } else {
                assert(rest[i - done - 1] == answers[i - done]);
            }
        }
        assert forall|i: int| done <= i < run.entries.len() implies #[trigger] end.states[i]
            == classify(run.entries[i].source, answers[i - done].probe) by {
            if i == done {
                assert(end.states[i] == next.states[i]);
            } else {
                assert(rest[i - done - 1] == answers[i - done]);
            }
        }
    }
}

/// Exactly one state holds of a pair on a disk, and it is read off in a
/// fixed order: the source first, then the target.
pub proof fn law_one_state(disk: Disk, source: Seq<char>, target: Seq<char>)
    ensures
        disk.state(source, target) is SourceMissing <==> !disk.present.contains(source),
        disk.state(source, target) is Missing <==> (disk.present.contains(source) && disk.look(
            target,
        ) is Absent),
        disk.state(source, target) is Conflict <==> (disk.present.contains(source) && (disk.look(
            target,
        ) is Occupied || disk.look(target) is Unreadable)),
        (disk.state(source, target) is Linked || disk.state(source, target) is Misdirected) <==> (
        disk.present.contains(source) && disk.look(target) is Link),
        disk.state(source, target) is Misdirected ==> (disk.look(target)->destination
            == disk.state(source, target)->actual),
{
}

/// `link` creates what is missing. For an entry whose source exists and
/// whose target does not, the run sees to the directory above the target,
/// asks for a symlink at the target that holds the source, and counts the
/// entry as created when that is done. On any disk on which that symlink is
/// there and the source still exists, the entry is linked.
pub proof fn law_link_creates_missing(run: RunView, before: Disk, found: bool, after: Disk)
    requires
        run.wf(),
        run.subcommand is Link,
        run.phase is Probing,
        before.present.contains(run.current().source),
        !before.nodes.contains_key(run.current().target),
        after.present.contains(run.current().source),
        after.links(run.current().target, run.current().source),
    ensures
        ({
            let entry = run.current();
            let probed = run.step(ReplyView::Probed(before.probe(entry.source, entry.target)));
            let linking = past_parent(probed, found);
            &&& before.state(entry.source, entry.target) is Missing
            &&& linking.phase is Linking
            &&& linking.request() == (RequestView::Symlink {
                source: entry.source,
                target: entry.target,
            })
            &&& linking.step(ReplyView::Done(true)).outcomes == run.outcomes.push(Outcome::Created)
            &&& after.state(entry.source, entry.target) is Linked
        }),
{
}

/// `link` is idempotent. On the disk that a first `link` left, with the
/// symlink that it created or found in place, a second `link` counts the
/// entry as skipped and asks for no change.
pub proof fn law_link_twice_skips(run: RunView, disk: Disk)
    requires
        run.wf(),
        run.subcommand is Link,
        run.phase is Probing,
        disk.state(run.current().source, run.current().target) is Linked,
    ensures
        ({
            let entry = run.current();
            let probed = run.step(ReplyView::Probed(disk.probe(entry.source, entry.target)));
            &&& !run.request().mutates()
            &&& probed.outcomes == run.outcomes.push(Outcome::Skipped)
            &&& probed.phase is Probing || probed.phase is Finished
        }),
{
}

/// `unlink` undoes `link`. On a disk on which the target is a symlink that
/// holds the source, `unlink` asks for that symlink to be removed and counts
/// the entry as removed when that is done. On any disk on which nothing is
/// at the target and the source still exists, the entry is missing again.
pub proof fn law_unlink_undoes_link(run: RunView, linked: Disk, after: Disk)
    requires
        run.wf(),
        run.subcommand is Unlink,
        run.phase is Probing,
        linked.present.contains(run.current().source),
        linked.links(run.current().target, run.current().source),
        after.present.contains(run.current().source),
        !after.nodes.contains_key(run.current().target),
    ensures
        ({
            let entry = run.current();
            let probed = run.step(ReplyView::Probed(linked.probe(entry.source, entry.target)));
            &&& linked.state(entry.source, entry.target) is Linked
            &&& probed.request() == (RequestView::Remove { path: entry.target })
            &&& probed.step(ReplyView::Done(true)).outcomes == run.outcomes.push(Outcome::Removed)
            &&& after.state(entry.source, entry.target) is Missing
        }),
{
}

/// `status` never changes the disk: whatever came back so far, it asks for
/// nothing but a probe, and a probe of one disk always shows one state.
pub proof fn law_status_only_looks(run: RunView)
    requires
        run.wf(),
        run.subcommand is Status,
    ensures
        !run.request().mutates(),
        run.request() is Probe || run.request() is Finished,
{
}

/// Nothing is created but what is missing and nothing is removed but a
/// symlink that holds its source: a change is only ever asked for an entry
/// that was just probed, by `link` for one found missing and by `unlink` for
/// one found linked, and it names that entry's own paths.
pub proof fn law_changes_are_owed(run: RunView)
    requires
        run.wf(),
        run.request().mutates(),
    ensures
        run.states.len() == run.outcomes.len() + 1,
        run.request() is Remove ==> run.subcommand is Unlink && run.states.last() is Linked
            && run.request()->Remove_path == run.current().target,
        run.request() is Symlink ==> run.subcommand is Link && run.states.last() is Missing
            && run.request()->Symlink_source == run.current().source
            && run.request()->Symlink_target == run.current().target,
        run.request() is CreateDirectories ==> run.subcommand is Link && run.states.last()
            is Missing,
{
}

/// A symlink that points elsewhere is left alone. `link` counts it as an
/// error and `unlink` refuses it; neither asks for a change.
pub proof fn law_misdirected_is_left_alone(run: RunView, disk: Disk)
    requires
        run.wf(),
        run.phase is Probing,
        disk.state(run.current().source, run.current().target) is Misdirected,
    ensures
        ({
            let entry = run.current();
            let probed = run.step(ReplyView::Probed(disk.probe(entry.source, entry.target)));
            &&& probed.phase is Probing || probed.phase is Finished
            &&& probed.outcomes == run.outcomes.push(
                match run.subcommand {
                    Subcommand::Link => Outcome::Failed(Failure::Misdirected),
                    Subcommand::Status => Outcome::Conflict,
                    Subcommand::Unlink => Outcome::Refused,
                },
            )
        }),
{
}

/// A target that is no symlink is left alone. Where the source exists the
/// entry is in conflict, whatever the source is; `link` counts it as an
/// error and `unlink` refuses it, and neither asks for a change.
pub proof fn law_conflict_is_left_alone(run: RunView, disk: Disk)
    requires
        run.wf(),
        run.phase is Probing,
        disk.present.contains(run.current().source),
        disk.nodes.contains_key(run.current().target),
        disk.nodes[run.current().target] is Other,
    ensures
        ({
            let entry = run.current();
            let probed = run.step(ReplyView::Probed(disk.probe(entry.source, entry.target)));
            &&& disk.state(entry.source, entry.target) is Conflict
            &&& probed.phase is Probing || probed.phase is Finished
            &&& probed.outcomes == run.outcomes.push(
                match run.subcommand {
                    Subcommand::Link => Outcome::Failed(Failure::Conflict),
                    Subcommand::Status => Outcome::Conflict,
                    Subcommand::Unlink => Outcome::Refused,
                },
            )
        }),
{
}

/// No entry holds up another: every step either ends the entry at work or
/// moves it one phase on, and the entries that are done keep their outcomes.
pub proof fn law_every_entry_is_attempted(run: RunView, reply: ReplyView)
    requires
        run.wf(),
    ensures
        run.outcomes.len() <= run.step(reply).outcomes.len() <= run.outcomes.len() + 1,
        run.step(reply).outcomes.take(run.outcomes.len() as int) == run.outcomes,
        run.step(reply).phase is Finished <==> run.step(reply).outcomes.len()
            == run.entries.len(),
{
}

/// Every entry is counted once: when a run is finished its three counters
/// add up to the number of entries, and each outcome is one that its command
/// can reach from the state in which the entry was found.
pub proof fn law_every_entry_is_counted(run: RunView)
    requires
        run.wf(),
        run.phase is Finished,
    ensures
        count(run.outcomes, Column::First) + count(run.outcomes, Column::Second) + count(
            run.outcomes,
            Column::Third,
        ) == run.entries.len(),
        run.states.len() == run.entries.len(),
        forall|i: int|
            0 <= i < run.entries.len() ==> crate::run::follows(
                run.subcommand,
                #[trigger] run.states[i],
                run.outcomes[i],
            ),
{
    lemma_counts_add_up(run.outcomes);
}

/// A run holds no outcome of another command: `link` never counts an entry
/// as removed or refused, `unlink` none as created, and `status` takes none
/// for done or failed.
pub proof fn law_outcomes_are_of_the_command(run: RunView)
    requires
        run.wf(),
    ensures
        forall|i: int|
            0 <= i < run.outcomes.len() ==> (#[trigger] run.outcomes[i]).belongs_to(run.subcommand),
{
    assert forall|i: int| 0 <= i < run.outcomes.len() implies (#[trigger] run.outcomes[i]).belongs_to(
        run.subcommand,
    ) by {
        assert(crate::run::follows(run.subcommand, run.states[i], run.outcomes[i]));
    }
}

/// An absolute path stands for itself, whatever the home directory and the
/// base directory are.
pub proof fn law_absolute_path_stands(
    path: Seq<char>,
    home: Option<Seq<char>>,
    base: Option<Seq<char>>,
)
    requires
        absolute(path),
    ensures
        resolved(path, home, base) == path,
{
}

/// A relative path without a tilde is taken from the base directory where
/// there is one, and else stays relative.
pub proof fn law_relative_path_is_anchored(
    path: Seq<char>,
    home: Option<Seq<char>>,
    base: Option<Seq<char>>,
)
    requires
        !absolute(path),
        !tilde_led(path),
    ensures
        resolved(path, home, base) == match base {
            Some(directory) => joined(directory, path),
            None => path,
        },
        base matches Some(directory) ==> resolved(path, home, base).len() >= directory.len()
            && resolved(path, home, base).take(directory.len() as int) == directory,
{
}

/// Seen from an absolute base directory every path resolves to an absolute
/// path.
pub proof fn law_resolved_is_absolute(path: Seq<char>, home: Option<Seq<char>>, base: Seq<char>)
    requires
        absolute(base),
    ensures
        absolute(resolved(path, home, Some(base))),
{
}

} // verus!
