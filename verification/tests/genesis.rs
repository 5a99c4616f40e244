use vm_runner::genesis::after;
use vm_runner::genesis::initialization_steps;
use vm_runner::genesis::step_after;
use vm_runner::genesis::Database;
use vm_runner::genesis::DatabaseStep;
use vm_runner::genesis::NextAction;
use vm_runner::genesis::PROVER_DROP_FAILURE;
use vm_runner::genesis::SERVER_DROP_FAILURE;
use vm_runner::genesis::PROVER_MIGRATIONS;
use vm_runner::genesis::SERVER_MIGRATIONS;

#[test]
fn databases_are_dropped_created_and_migrated() {
    assert_eq!(
        initialization_steps(false),
        vec![
            DatabaseStep::Drop(Database::Server),
            DatabaseStep::Init(Database::Server),
            DatabaseStep::Migrate(Database::Server),
            DatabaseStep::Drop(Database::Prover),
            DatabaseStep::Init(Database::Prover),
            DatabaseStep::Migrate(Database::Prover),
        ]
    );
}

#[test]
fn kept_databases_are_only_migrated() {
    assert_eq!(
        initialization_steps(true),
        vec![DatabaseStep::Migrate(Database::Server), DatabaseStep::Migrate(Database::Prover)]
    );
}

#[test]
fn steps_follow_each_other_as_in_the_plan() {
    for dont_drop in [false, true] {
        let plan = initialization_steps(dont_drop);
        let mut walked = Vec::new();
        let mut step = step_after(None, dont_drop);
        while let Some(current) = step {
            walked.push(current);
            step = step_after(Some(current), dont_drop);
        }
        assert_eq!(walked, plan);
    }
}

#[test]
fn migrations_lie_where_they_always_did() {
    assert_eq!(Database::Server.migrations_path(), "core/lib/dal/migrations");
    assert_eq!(Database::Prover.migrations_path(), "prover/prover_dal/migrations");
    assert_eq!(SERVER_MIGRATIONS, "core/lib/dal/migrations");
    assert_eq!(PROVER_MIGRATIONS, "prover/prover_dal/migrations");
    assert_eq!(Database::Server.following(), Some(Database::Prover));
    assert_eq!(Database::Prover.following(), None);
}

#[test]
fn every_step_has_its_successor() {
    // Also for a step that the plan at hand does not hold.
    assert_eq!(
        step_after(Some(DatabaseStep::Drop(Database::Server)), true),
        Some(DatabaseStep::Init(Database::Server))
    );
    assert_eq!(step_after(None, false), Some(DatabaseStep::Drop(Database::Server)));
    assert_eq!(step_after(None, true), Some(DatabaseStep::Migrate(Database::Server)));
    assert_eq!(
        step_after(Some(DatabaseStep::Migrate(Database::Server)), false),
        Some(DatabaseStep::Drop(Database::Prover))
    );
    assert_eq!(
        step_after(Some(DatabaseStep::Migrate(Database::Server)), true),
        Some(DatabaseStep::Migrate(Database::Prover))
    );
    assert_eq!(step_after(Some(DatabaseStep::Migrate(Database::Prover)), false), None);
    assert_eq!(DatabaseStep::Init(Database::Prover).database(), Database::Prover);
}

/// Takes steps as `after` says; the step at index `failing` fails, if there is one.
fn walk(dont_drop: bool, failing: Option<usize>) -> (Vec<DatabaseStep>, NextAction) {
    let mut taken = Vec::new();
    let mut previous = None;
    loop {
        match after(previous, dont_drop) {
            NextAction::Take(step) => {
                let succeeded = failing != Some(taken.len());
                taken.push(step);
                previous = Some((step, succeeded));
            }
            last => return (taken, last),
        }
    }
}

#[test]
fn without_failures_the_whole_plan_is_taken() {
    for dont_drop in [false, true] {
        let (taken, last) = walk(dont_drop, None);
        assert_eq!(taken, initialization_steps(dont_drop));
        assert_eq!(last, NextAction::Done);
    }
}

#[test]
fn the_first_failed_step_ends_the_work() {
    for dont_drop in [false, true] {
        let plan = initialization_steps(dont_drop);
        for failing in 0..plan.len() {
            let (taken, last) = walk(dont_drop, Some(failing));
            assert_eq!(taken, plan[..=failing].to_vec());
            assert_eq!(last, NextAction::GiveUp);
        }
    }
    assert_eq!(after(Some((DatabaseStep::Init(Database::Server), false)), false), NextAction::GiveUp);
    assert_eq!(
        after(Some((DatabaseStep::Init(Database::Server), true)), false),
        NextAction::Take(DatabaseStep::Migrate(Database::Server))
    );
    assert_eq!(after(Some((DatabaseStep::Migrate(Database::Prover), true)), true), NextAction::Done);
    assert_eq!(after(None, true), NextAction::Take(DatabaseStep::Migrate(Database::Server)));
}

#[test]
fn only_a_failed_drop_gets_a_message() {
    assert_eq!(
        DatabaseStep::Drop(Database::Server).failure_context(),
        Some("Failed to drop server database")
    );
    assert_eq!(
        DatabaseStep::Drop(Database::Prover).failure_context(),
        Some("Failed to drop prover database")
    );
    assert_eq!(DatabaseStep::Init(Database::Server).failure_context(), None);
    assert_eq!(DatabaseStep::Migrate(Database::Prover).failure_context(), None);
    assert_eq!(SERVER_DROP_FAILURE, "Failed to drop server database");
    assert_eq!(PROVER_DROP_FAILURE, "Failed to drop prover database");
}
