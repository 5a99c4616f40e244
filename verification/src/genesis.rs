//! The order of work on the databases when a chain's genesis is run.

use vstd::prelude::*;

verus! {

/// Where the migrations of the server database lie, below the code's root.
pub const SERVER_MIGRATIONS: &'static str = "core/lib/dal/migrations";

/// Where the migrations of the prover database lie, below the code's root.
pub const PROVER_MIGRATIONS: &'static str = "prover/prover_dal/migrations";

/// What is said when the server's database cannot be dropped.
pub const SERVER_DROP_FAILURE: &'static str = "Failed to drop server database";

/// What is said when the prover's database cannot be dropped.
pub const PROVER_DROP_FAILURE: &'static str = "Failed to drop prover database";

/// The databases that a chain needs.
#[derive(Clone, Copy, Debug, PartialEq, Eq, Structural)]
pub enum Database {
    Server,
    Prover,
}

/// One piece of work on a database.
#[derive(Clone, Copy, Debug, PartialEq, Eq, Structural)]
pub enum DatabaseStep {
    /// Drop the database if it exists.
    Drop(Database),
    /// Create the database.
    Init(Database),
    /// Bring the database's schema up to date.
    Migrate(Database),
}

/// What is to be done next in the initialization.
#[derive(Clone, Copy, Debug, PartialEq, Eq, Structural)]
pub enum NextAction {
    /// Take this step, and report how it went.
    Take(DatabaseStep),
    /// All steps were taken and none failed: the databases are ready.
    Done,
    /// A step has failed: take no further step and hand its error on.
    GiveUp,
}

impl DatabaseStep {
    /// What is added to the error of a step that failed: a failed drop says
    /// which database could not be dropped, and the errors of the other
    /// steps are handed on as they are.
    pub open spec fn failure_text(self) -> Option<Seq<char>> {
        match self {
            DatabaseStep::Drop(Database::Server) => Some(SERVER_DROP_FAILURE@),
            DatabaseStep::Drop(Database::Prover) => Some(PROVER_DROP_FAILURE@),
            DatabaseStep::Init(_) => None,
            DatabaseStep::Migrate(_) => None,
        }
    }

    /// What is added to the error of this step if it fails, if anything.
    pub fn failure_context(self) -> (context: Option<&'static str>)
        ensures
            context is Some <==> self is Drop,
            match context {
                Some(text) => self.failure_text() == Some(text@),
                None => self.failure_text() is None,
            },
    {
        match self {
            DatabaseStep::Drop(Database::Server) => Some(SERVER_DROP_FAILURE),
            DatabaseStep::Drop(Database::Prover) => Some(PROVER_DROP_FAILURE),
            DatabaseStep::Init(_) => None,
            DatabaseStep::Migrate(_) => None,
        }
    }

    /// The database that the step works on.
    pub open spec fn target(self) -> Database {
        match self {
            DatabaseStep::Drop(database) => database,
            DatabaseStep::Init(database) => database,
            DatabaseStep::Migrate(database) => database,
        }
    }

    /// The database that the step works on.
    pub fn database(self) -> (database: Database)
        ensures
            database == self.target(),
    {
        match self {
            DatabaseStep::Drop(database) => database,
            DatabaseStep::Init(database) => database,
            DatabaseStep::Migrate(database) => database,
        }
    }
}

/// The steps for one database: it is dropped and created anew unless the old
/// one is to be kept, and migrated in either case.
pub open spec fn database_plan(database: Database, dont_drop: bool) -> Seq<DatabaseStep> {
    if dont_drop {
        seq![DatabaseStep::Migrate(database)]
    } else {
        seq![
            DatabaseStep::Drop(database),
            DatabaseStep::Init(database),
            DatabaseStep::Migrate(database),
        ]
    }
}

/// The steps for all databases: first the server's, then the prover's.
pub open spec fn initialization_plan(dont_drop: bool) -> Seq<DatabaseStep> {
    database_plan(Database::Server, dont_drop) + database_plan(Database::Prover, dont_drop)
}

impl Database {
    /// The directory of the migrations of this database.
    pub open spec fn migrations(self) -> Seq<char> {
        match self {
            Database::Server => SERVER_MIGRATIONS@,
            Database::Prover => PROVER_MIGRATIONS@,
        }
    }

    /// The directory of the migrations of this database, relative to the
    /// root of the code.
    pub fn migrations_path(self) -> (path: &'static str)
        ensures
            path@ == self.migrations(),
    {
        match self {
            Database::Server => SERVER_MIGRATIONS,
            Database::Prover => PROVER_MIGRATIONS,
        }
    }

    /// The database whose turn comes after this one, if any.
    pub fn following(self) -> (next: Option<Database>)
        ensures
            self == Database::Server ==> next == Some(Database::Prover),
            self == Database::Prover ==> next is None,
    {
        match self {
            Database::Server => Some(Database::Prover),
            Database::Prover => None,
        }
    }
}

/// Appends the steps for one database.
fn push_database_steps(steps: &mut Vec<DatabaseStep>, database: Database, dont_drop: bool)
    ensures
        final(steps)@ == old(steps)@ + database_plan(database, dont_drop),
{
    if !dont_drop {
        steps.push(DatabaseStep::Drop(database));
        steps.push(DatabaseStep::Init(database));
    }
    steps.push(DatabaseStep::Migrate(database));
    assert(steps@ =~= old(steps)@ + database_plan(database, dont_drop));
}

/// The steps that initialize the databases, in the order in which they are
/// to be taken while none of them fails; `after` says when the work ends.
pub fn initialization_steps(dont_drop: bool) -> (steps: Vec<DatabaseStep>)
    ensures
        steps@ == initialization_plan(dont_drop),
{
    let mut steps: Vec<DatabaseStep> = Vec::new();
    push_database_steps(&mut steps, Database::Server, dont_drop);
    push_database_steps(&mut steps, Database::Prover, dont_drop);
    assert(steps@ =~= initialization_plan(dont_drop));
    steps
}

/// What comes after a step, whether or not the step is part of the plan: a
/// dropped database is created, a created one is migrated, and after a
/// migration the next database is begun. Before all steps comes the first
/// step on the server's database.
pub open spec fn successor(previous: Option<DatabaseStep>, dont_drop: bool) -> Option<DatabaseStep> {
    match previous {
        None => Some(database_plan(Database::Server, dont_drop)[0]),
        Some(DatabaseStep::Drop(database)) => Some(DatabaseStep::Init(database)),
        Some(DatabaseStep::Init(database)) => Some(DatabaseStep::Migrate(database)),
        Some(DatabaseStep::Migrate(Database::Server)) => Some(
            database_plan(Database::Prover, dont_drop)[0],
        ),
        Some(DatabaseStep::Migrate(Database::Prover)) => None,
    }
}

/// The step that follows `previous` in the initialization, or the first step
/// where nothing was done yet; `None` when the work is complete.
pub fn step_after(previous: Option<DatabaseStep>, dont_drop: bool) -> (next: Option<DatabaseStep>)
    ensures
        next == successor(previous, dont_drop),
        previous is None ==> next == Some(initialization_plan(dont_drop)[0]),
        forall|i: int|
            0 <= i < initialization_plan(dont_drop).len() && previous == Some(
                #[trigger] initialization_plan(dont_drop)[i],
            ) ==> (if i + 1 < initialization_plan(dont_drop).len() {
                next == Some(initialization_plan(dont_drop)[i + 1])
            } else {
                next is None
            }),
{
    match previous {
        None => Some(first_step(Database::Server, dont_drop)),
        Some(DatabaseStep::Drop(database)) => Some(DatabaseStep::Init(database)),
        Some(DatabaseStep::Init(database)) => Some(DatabaseStep::Migrate(database)),
        Some(DatabaseStep::Migrate(database)) => match database.following() {
            Some(following) => Some(first_step(following, dont_drop)),
            None => None,
        },
    }
}

/// What follows a step, given how the step went: a step that failed ends
/// the work, and after a step that succeeded comes its successor, or the end.
/// Before all steps, the first step is to be taken.
pub open spec fn decision(previous: Option<(DatabaseStep, bool)>, dont_drop: bool) -> NextAction {
    match previous {
        Some((_, false)) => NextAction::GiveUp,
        Some((step, true)) => match successor(Some(step), dont_drop) {
            Some(next) => NextAction::Take(next),
            None => NextAction::Done,
        },
        None => NextAction::Take(database_plan(Database::Server, dont_drop)[0]),
    }
}

/// Decides what to do next in the initialization.
///
/// `previous` is the step that was taken last, with `true` if it succeeded
/// and `false` if it failed, or `None` where no step was taken yet. The
/// first step that fails ends the work: nothing is taken after it. While no
/// step fails, the steps come in the order of the plan, and after the last
/// one the work is done.
pub fn after(previous: Option<(DatabaseStep, bool)>, dont_drop: bool) -> (action: NextAction)
    ensures
        action == decision(previous, dont_drop),
        action is GiveUp <==> previous matches Some((_, false)),
        previous is None ==> action == NextAction::Take(initialization_plan(dont_drop)[0]),
        forall|i: int|
            0 <= i < initialization_plan(dont_drop).len() && previous == Some(
                (#[trigger] initialization_plan(dont_drop)[i], true),
            ) ==> (if i + 1 < initialization_plan(dont_drop).len() {
                action == NextAction::Take(initialization_plan(dont_drop)[i + 1])
            } else {
                action == NextAction::Done
            }),
{
    match previous {
        Some((_, false)) => NextAction::GiveUp,
        Some((step, true)) => match step_after(Some(step), dont_drop) {
            Some(next) => NextAction::Take(next),
            None => NextAction::Done,
        },
        None => match step_after(None, dont_drop) {
            Some(first) => NextAction::Take(first),
            None => NextAction::Done,
        },
    }
}

/// The first step on a database.
fn first_step(database: Database, dont_drop: bool) -> (step: DatabaseStep)
    ensures
        step == database_plan(database, dont_drop)[0],
{
    if dont_drop {
        DatabaseStep::Migrate(database)
    } else {
        DatabaseStep::Drop(database)
    }
}

/// A database is created only right after it was dropped, nothing is
/// dropped where the old databases are to be kept, and the server's database
/// is done before the prover's is begun.
pub proof fn lemma_plan_order(dont_drop: bool, i: int)
    requires
        0 <= i < initialization_plan(dont_drop).len(),
    ensures
        forall|j: int|
            i <= j < initialization_plan(dont_drop).len() && initialization_plan(
                dont_drop,
            )[i].target() == Database::Prover ==> (#[trigger] initialization_plan(
                dont_drop,
            )[j]).target() == Database::Prover,
        dont_drop ==> initialization_plan(dont_drop)[i] is Migrate,
        initialization_plan(dont_drop)[i] matches DatabaseStep::Init(database) ==> i > 0
            && initialization_plan(dont_drop)[i - 1] == DatabaseStep::Drop(database),
        initialization_plan(dont_drop)[i] matches DatabaseStep::Migrate(Database::Prover) ==> i
            == initialization_plan(dont_drop).len() - 1,
{
}

} // verus!
