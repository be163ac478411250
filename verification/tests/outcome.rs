use strew::outcome::{Column, Failure, Outcome, Plan, Subcommand, Summary};
use strew::state::State;

fn states() -> Vec<State> {
    vec![
        State::Linked,
        State::Missing,
        State::Conflict,
        State::Misdirected { actual: "/c".to_string() },
        State::SourceMissing,
    ]
}

#[test]
fn link_creates_only_what_is_missing() {
    let plans: Vec<Plan> = states().iter().map(|state| Subcommand::Link.plan(state)).collect();

    assert_eq!(
        plans,
        vec![
            Plan::Settle(Outcome::Skipped),
            Plan::Create,
            Plan::Settle(Outcome::Failed(Failure::Conflict)),
            Plan::Settle(Outcome::Failed(Failure::Misdirected)),
            Plan::Settle(Outcome::Failed(Failure::SourceMissing)),
        ]
    );
}

#[test]
fn unlink_removes_only_what_is_linked() {
    let plans: Vec<Plan> = states().iter().map(|state| Subcommand::Unlink.plan(state)).collect();

    assert_eq!(
        plans,
        vec![
            Plan::Remove,
            Plan::Settle(Outcome::Skipped),
            Plan::Settle(Outcome::Refused),
            Plan::Settle(Outcome::Refused),
            Plan::Settle(Outcome::Skipped),
        ]
    );
}

#[test]
fn status_only_reports() {
    let plans: Vec<Plan> = states().iter().map(|state| Subcommand::Status.plan(state)).collect();

    assert_eq!(
        plans,
        vec![
            Plan::Settle(Outcome::Linked),
            Plan::Settle(Outcome::Missing),
            Plan::Settle(Outcome::Conflict),
            Plan::Settle(Outcome::Conflict),
            Plan::Settle(Outcome::Conflict),
        ]
    );
}

#[test]
fn outcomes_are_counted_under_their_own_counter() {
    assert_eq!(Outcome::Created.counted_under(), Column::First);
    assert_eq!(Outcome::Removed.counted_under(), Column::First);
    assert_eq!(Outcome::Linked.counted_under(), Column::First);
    assert_eq!(Outcome::Skipped.counted_under(), Column::Second);
    assert_eq!(Outcome::Refused.counted_under(), Column::Second);
    assert_eq!(Outcome::Missing.counted_under(), Column::Second);
    assert_eq!(Outcome::Failed(Failure::Symlink).counted_under(), Column::Third);
    assert_eq!(Outcome::Conflict.counted_under(), Column::Third);
}

#[test]
fn summary_counts_each_outcome_once() {
    let outcomes = vec![
        Outcome::Created,
        Outcome::Skipped,
        Outcome::Failed(Failure::Conflict),
        Outcome::Created,
        Outcome::Failed(Failure::Symlink),
        Outcome::Created,
    ];

    let summary = Summary::of(Subcommand::Link, &outcomes);

    assert_eq!(summary, Summary::Link { created: 3, skipped: 1, errors: 2 });
    assert_eq!(summary.counters(), (3, 1, 2));
}

#[test]
fn summary_names_its_counters_by_the_command() {
    assert_eq!(Summary::new(Subcommand::Link), Summary::Link { created: 0, skipped: 0, errors: 0 });
    assert_eq!(
        Summary::new(Subcommand::Status),
        Summary::Status { linked: 0, missing: 0, conflicts: 0 }
    );
    assert_eq!(
        Summary::new(Subcommand::Unlink),
        Summary::Unlink { removed: 0, skipped: 0, errors: 0 }
    );
    assert_eq!(Summary::of(Subcommand::Status, &vec![]), Summary::new(Subcommand::Status));

    assert_eq!(
        Summary::of(
            Subcommand::Unlink,
            &vec![Outcome::Removed, Outcome::Refused, Outcome::Skipped, Outcome::Failed(Failure::Removal)]
        ),
        Summary::Unlink { removed: 1, skipped: 2, errors: 1 }
    );
    assert_eq!(
        Summary::of(
            Subcommand::Status,
            &vec![Outcome::Linked, Outcome::Missing, Outcome::Missing, Outcome::Conflict]
        ),
        Summary::Status { linked: 1, missing: 2, conflicts: 1 }
    );
}

#[test]
fn summary_records_one_outcome_at_a_time() {
    let summary = Summary::new(Subcommand::Unlink)
        .record(Outcome::Removed)
        .record(Outcome::Refused)
        .record(Outcome::Removed);

    assert_eq!(summary, Summary::Unlink { removed: 2, skipped: 1, errors: 0 });
}
