//! The storage round-trips of one request, as a state machine.
//!
//! The machine decides which command goes to the storage next and what a
//! success or a failure of that command leads to. Whoever owns the connection
//! performs the command and reports back how it went.

use crate::store::StoreError;
use crate::tables::Storage;
use crate::tables::Tables;
use crate::tables::Visit;
use vstd::prelude::*;

verus! {

/// The statements that the store sends.
#[derive(Clone, Copy, Debug, PartialEq, Eq, Structural)]
pub enum Statement {
    CreateCounters,
    CreateCoordinates,
    UpsertCounter,
    IncrementCounter,
    InsertCoordinate,
    SelectCounters,
    SelectCoordinates,
}

/// What the storage is asked to do in one round-trip.
#[derive(Clone, Copy, Debug, PartialEq, Eq, Structural)]
pub enum Command {
    /// Run a statement outside any transaction.
    Execute(Statement),
    /// Open a transaction.
    Begin,
    /// Run a statement inside the open transaction.
    ExecuteInTransaction(Statement),
    /// Commit the open transaction.
    Commit,
    /// Abandon the open transaction.
    Rollback,
}

/// Where a request stands.
#[derive(Clone, Copy, Debug, PartialEq, Eq, Structural)]
pub enum Stage {
    CreatingCounters,
    CreatingCoordinates,
    Beginning,
    Upserting,
    Incrementing,
    Inserting,
    Committing,
    RollingBack,
    ReadingCounters,
    ReadingCoordinates,
    Done,
    Failed(StoreError),
}

/// A value bound to a placeholder of a statement.
#[derive(Clone, Debug, PartialEq, Eq)]
pub enum Param {
    Text(String),
    /// A coordinate in units of 1e-7 degrees.
    Degrees(i32),
}

/// The mathematical reading of a [`Param`].
pub enum ParamValue {
    Text(Seq<char>),
    Degrees(int),
}

impl View for Param {
    type V = ParamValue;

    open spec fn view(&self) -> ParamValue {
        match self {
            Param::Text(text) => ParamValue::Text(text@),
            Param::Degrees(units) => ParamValue::Degrees(*units as int),
        }
    }
}

/// One visit as the handler receives it.
#[derive(Clone, Debug, PartialEq, Eq)]
pub struct VisitRequest {
    pub airport: String,
    pub country: String,
    pub city: String,
    pub lat: i32,
    pub long: i32,
}

impl View for VisitRequest {
    type V = Visit;

    open spec fn view(&self) -> Visit {
        Visit {
            airport: self.airport@,
            country: self.country@,
            city: self.city@,
            lat: self.lat as int,
            long: self.long as int,
        }
    }
}

impl Statement {
    /// The text of the statement.
    pub open spec fn spec_sql(self) -> Seq<char> {
        match self {
            Statement::CreateCounters =>
                "CREATE TABLE IF NOT EXISTS counter(country TEXT, city TEXT, value, PRIMARY KEY(country, city)) WITHOUT ROWID"@,
            Statement::CreateCoordinates =>
                "CREATE TABLE IF NOT EXISTS coordinates(lat INT, long INT, airport TEXT, PRIMARY KEY (lat, long))"@,
            Statement::UpsertCounter => "INSERT OR IGNORE INTO counter VALUES (?, ?, 0)"@,
            Statement::IncrementCounter =>
                "UPDATE counter SET value = value + 1 WHERE country = ? AND city = ?"@,
            Statement::InsertCoordinate => "INSERT OR IGNORE INTO coordinates VALUES (?, ?, ?)"@,
            Statement::SelectCounters => "SELECT * FROM counter"@,
            Statement::SelectCoordinates => "SELECT airport, lat, long FROM coordinates"@,
        }
    }

    /// The values bound to the statement's placeholders, in order.
    pub open spec fn spec_params(self, visit: Visit) -> Seq<ParamValue> {
        match self {
            Statement::UpsertCounter | Statement::IncrementCounter => seq![
                ParamValue::Text(visit.country),
                ParamValue::Text(visit.city),
            ],
            Statement::InsertCoordinate => seq![
                ParamValue::Degrees(visit.lat),
                ParamValue::Degrees(visit.long),
                ParamValue::Text(visit.airport),
            ],
            _ => seq![],
        }
    }

    /// What the statement does to the tables where it succeeds. The schema
    /// counts as present once the second of the two definitions has run.
    pub open spec fn effect(self, visit: Visit, tables: Tables) -> Tables {
        match self {
            Statement::CreateCounters => tables,
            Statement::CreateCoordinates => tables.ensure_schema(),
            Statement::UpsertCounter => tables.upsert_counter(visit.counter_key()),
            Statement::IncrementCounter => tables.increment_counter(visit.counter_key()),
            Statement::InsertCoordinate => tables.insert_coordinate(
                visit.coordinate_key(),
                visit.airport,
            ),
            Statement::SelectCounters | Statement::SelectCoordinates => tables,
        }
    }

    /// The text of the statement.
    pub fn sql(self) -> (text: &'static str)
        ensures
            text@ == self.spec_sql(),
    {
        match self {
            Statement::CreateCounters =>
                "CREATE TABLE IF NOT EXISTS counter(country TEXT, city TEXT, value, PRIMARY KEY(country, city)) WITHOUT ROWID",
            Statement::CreateCoordinates =>
                "CREATE TABLE IF NOT EXISTS coordinates(lat INT, long INT, airport TEXT, PRIMARY KEY (lat, long))",
            Statement::UpsertCounter => "INSERT OR IGNORE INTO counter VALUES (?, ?, 0)",
            Statement::IncrementCounter =>
                "UPDATE counter SET value = value + 1 WHERE country = ? AND city = ?",
            Statement::InsertCoordinate => "INSERT OR IGNORE INTO coordinates VALUES (?, ?, ?)",
            Statement::SelectCounters => "SELECT * FROM counter",
            Statement::SelectCoordinates => "SELECT airport, lat, long FROM coordinates",
        }
    }

    /// The values to bind to the statement's placeholders, in order.
    pub fn params(self, request: &VisitRequest) -> (bound: Vec<Param>)
        ensures
            bound@.map_values(|p: Param| p@) == self.spec_params(request@),
    {
        let mut bound: Vec<Param> = Vec::new();
        match self {
            Statement::UpsertCounter | Statement::IncrementCounter => {
                bound.push(Param::Text(request.country.clone()));
                bound.push(Param::Text(request.city.clone()));
            },
            Statement::InsertCoordinate => {
                bound.push(Param::Degrees(request.lat));
                bound.push(Param::Degrees(request.long));
                bound.push(Param::Text(request.airport.clone()));
            },
            _ => {},
        }
        proof {
            assert(bound@.map_values(|p: Param| p@) =~= self.spec_params(request@));
        }
        bound
    }
}

impl Stage {
    /// The stage that every request starts in.
    pub open spec fn spec_first() -> Stage {
        Stage::CreatingCounters
    }

    /// Nothing more is sent from this stage.
    pub open spec fn is_final(self) -> bool {
        self is Done || self is Failed
    }

    /// The command to send in this stage, if any.
    pub open spec fn spec_command(self) -> Option<Command> {
        match self {
            Stage::CreatingCounters => Some(Command::Execute(Statement::CreateCounters)),
            Stage::CreatingCoordinates => Some(Command::Execute(Statement::CreateCoordinates)),
            Stage::Beginning => Some(Command::Begin),
            Stage::Upserting => Some(Command::ExecuteInTransaction(Statement::UpsertCounter)),
            Stage::Incrementing => Some(
                Command::ExecuteInTransaction(Statement::IncrementCounter),
            ),
            Stage::Inserting => Some(Command::ExecuteInTransaction(Statement::InsertCoordinate)),
            Stage::Committing => Some(Command::Commit),
            Stage::RollingBack => Some(Command::Rollback),
            Stage::ReadingCounters => Some(Command::Execute(Statement::SelectCounters)),
            Stage::ReadingCoordinates => Some(Command::Execute(Statement::SelectCoordinates)),
            Stage::Done | Stage::Failed(_) => None,
        }
    }

    /// The stage that follows once the command of this stage has succeeded
    /// (`ok`) or failed.
    pub open spec fn spec_advance(self, ok: bool) -> Stage {
        match self {
            Stage::CreatingCounters => if ok {
                Stage::CreatingCoordinates
            } else {
                Stage::Failed(StoreError::Schema)
            },
            Stage::CreatingCoordinates => if ok {
                Stage::Beginning
            } else {
                Stage::Failed(StoreError::Schema)
            },
            Stage::Beginning => if ok {
                Stage::Upserting
            } else {
                Stage::Failed(StoreError::Write)
            },
            Stage::Upserting => if ok {
                Stage::Incrementing
            } else {
                Stage::RollingBack
            },
            Stage::Incrementing => if ok {
                Stage::Inserting
            } else {
                Stage::RollingBack
            },
            Stage::Inserting => if ok {
                Stage::Committing
            } else {
                Stage::RollingBack
            },
            Stage::Committing => if ok {
                Stage::ReadingCounters
            } else {
                Stage::RollingBack
            },
            Stage::RollingBack => Stage::Failed(StoreError::Write),
            Stage::ReadingCounters => if ok {
                Stage::ReadingCoordinates
            } else {
                Stage::Failed(StoreError::Read)
            },
            Stage::ReadingCoordinates => if ok {
                Stage::Done
            } else {
                Stage::Failed(StoreError::Read)
            },
            Stage::Done => Stage::Done,
            Stage::Failed(error) => Stage::Failed(error),
        }
    }

    /// An upper bound on the round-trips that are still to come.
    pub open spec fn remaining(self) -> nat {
        match self {
            Stage::CreatingCounters => 9,
            Stage::CreatingCoordinates => 8,
            Stage::Beginning => 7,
            Stage::Upserting => 6,
            Stage::Incrementing => 5,
            Stage::Inserting => 4,
            Stage::Committing => 3,
            Stage::ReadingCounters => 2,
            Stage::ReadingCoordinates => 1,
            Stage::RollingBack => 1,
            Stage::Done | Stage::Failed(_) => 0,
        }
    }

    /// How the request ended, once it has.
    pub open spec fn spec_outcome(self) -> Option<Result<(), StoreError>> {
        match self {
            Stage::Done => Some(Ok(())),
            Stage::Failed(error) => Some(Err(error)),
            _ => None,
        }
    }

    /// The stage that every request starts in.
    pub fn first() -> (stage: Stage)
        ensures
            stage == Stage::spec_first(),
    {
        Stage::CreatingCounters
    }

    /// The command to send in this stage; `None` once the request has ended.
    pub fn command(self) -> (command: Option<Command>)
        ensures
            command == self.spec_command(),
            command is None <==> self.is_final(),
    {
        match self {
            Stage::CreatingCounters => Some(Command::Execute(Statement::CreateCounters)),
            Stage::CreatingCoordinates => Some(Command::Execute(Statement::CreateCoordinates)),
            Stage::Beginning => Some(Command::Begin),
            Stage::Upserting => Some(Command::ExecuteInTransaction(Statement::UpsertCounter)),
            Stage::Incrementing => Some(
                Command::ExecuteInTransaction(Statement::IncrementCounter),
            ),
            Stage::Inserting => Some(Command::ExecuteInTransaction(Statement::InsertCoordinate)),
            Stage::Committing => Some(Command::Commit),
            Stage::RollingBack => Some(Command::Rollback),
            Stage::ReadingCounters => Some(Command::Execute(Statement::SelectCounters)),
            Stage::ReadingCoordinates => Some(Command::Execute(Statement::SelectCoordinates)),
            Stage::Done => None,
            Stage::Failed(_) => None,
        }
    }

    /// The stage that follows once the command of this stage has succeeded
    /// (`ok`) or failed. Nothing is retried: a failure of the schema ends
    /// the request before any write, a failure inside the transaction leads
    /// to a rollback and then to `Write`, a failed read to `Read`.
    pub fn advance(self, ok: bool) -> (next: Stage)
        ensures
            next == self.spec_advance(ok),
    {
        match self {
            Stage::CreatingCounters => if ok {
                Stage::CreatingCoordinates
            } else {
                Stage::Failed(StoreError::Schema)
            },
            Stage::CreatingCoordinates => if ok {
                Stage::Beginning
            } else {
                Stage::Failed(StoreError::Schema)
            },
            Stage::Beginning => if ok {
                Stage::Upserting
            } else {
                Stage::Failed(StoreError::Write)
            },
            Stage::Upserting => if ok {
                Stage::Incrementing
            } else {
                Stage::RollingBack
            },
            Stage::Incrementing => if ok {
                Stage::Inserting
            } else {
                Stage::RollingBack
            },
            Stage::Inserting => if ok {
                Stage::Committing
            } else {
                Stage::RollingBack
            },
            Stage::Committing => if ok {
                Stage::ReadingCounters
            } else {
                Stage::RollingBack
            },
            Stage::RollingBack => Stage::Failed(StoreError::Write),
            Stage::ReadingCounters => if ok {
                Stage::ReadingCoordinates
            } else {
                Stage::Failed(StoreError::Read)
            },
            Stage::ReadingCoordinates => if ok {
                Stage::Done
            } else {
                Stage::Failed(StoreError::Read)
            },
            Stage::Done => Stage::Done,
            Stage::Failed(error) => Stage::Failed(error),
        }
    }

    /// How the request ended: `None` while commands are still to be sent.
    pub fn outcome(self) -> (outcome: Option<Result<(), StoreError>>)
        ensures
            outcome == self.spec_outcome(),
            outcome is Some <==> self.is_final(),
    {
        match self {
            Stage::Done => Some(Ok(())),
            Stage::Failed(error) => Some(Err(error)),
            _ => None,
        }
    }
}

impl Storage {
    /// The storage after `command` has been tried. A command that fails
    /// changes nothing, except that a rollback always ends the transaction.
    pub open spec fn apply(self, command: Command, visit: Visit, ok: bool) -> Storage {
        match command {
            Command::Execute(statement) => if ok {
                Storage { committed: statement.effect(visit, self.committed), ..self }
            } else {
                self
            },
            Command::Begin => if ok {
                Storage { staged: Some(self.committed), ..self }
            } else {
                self
            },
            Command::ExecuteInTransaction(statement) => match self.staged {
                Some(staged) if ok => Storage {
                    staged: Some(statement.effect(visit, staged)),
                    ..self
                },
                _ => self,
            },
            Command::Commit => match self.staged {
                Some(staged) if ok => Storage { committed: staged, staged: None },
                _ => self,
            },
            Command::Rollback => Storage { staged: None, ..self },
        }
    }
}

/// The stage and the storage after the commands of a request have met the
/// given outcomes, one per round-trip, for as long as commands are sent.
pub open spec fn run(stage: Stage, storage: Storage, visit: Visit, outcomes: Seq<bool>) -> (
    Stage,
    Storage,
)
    decreases outcomes.len(),
{
    if outcomes.len() == 0 {
        (stage, storage)
    } else {
        match stage.spec_command() {
            Some(command) => run(
                stage.spec_advance(outcomes[0]),
                storage.apply(command, visit, outcomes[0]),
                visit,
                outcomes.drop_first(),
            ),
            None => (stage, storage),
        }
    }
}

/// What the storage must hold while a request that started on `start`
/// stands at `stage`.
pub open spec fn in_step(stage: Stage, storage: Storage, visit: Visit, start: Tables) -> bool {
    let ensured = start.ensure_schema();
    let key = visit.counter_key();
    match stage {
        Stage::CreatingCounters | Stage::CreatingCoordinates | Stage::Failed(StoreError::Schema) =>
            storage == (Storage { committed: start, staged: None }),
        Stage::Beginning | Stage::Failed(StoreError::Write) => storage == (Storage {
            committed: ensured,
            staged: None,
        }),
        Stage::Upserting => storage == (Storage { committed: ensured, staged: Some(ensured) }),
        Stage::Incrementing => storage == (Storage {
            committed: ensured,
            staged: Some(ensured.upsert_counter(key)),
        }),
        Stage::Inserting => storage == (Storage {
            committed: ensured,
            staged: Some(ensured.upsert_counter(key).increment_counter(key)),
        }),
        Stage::Committing => storage == (Storage {
            committed: ensured,
            staged: Some(ensured.record_visit(visit)),
        }),
        Stage::RollingBack => storage.committed == ensured,
        Stage::ReadingCounters | Stage::ReadingCoordinates | Stage::Done | Stage::Failed(
            StoreError::Read,
        ) => storage == (Storage { committed: ensured.record_visit(visit), staged: None }),
    }
}

/// Every round-trip brings the end nearer: a request takes nine round-trips
/// at most, and nothing is sent twice.
pub proof fn law_round_trip_progress(stage: Stage, ok: bool)
    requires
        stage.spec_command() is Some,
    ensures
        stage.spec_advance(ok).remaining() < stage.remaining(),
        Stage::spec_first().remaining() == 9,
{
}

/// One round-trip, whatever its outcome, keeps the storage in step with the
/// stage.
pub proof fn law_round_trip_in_step(
    stage: Stage,
    storage: Storage,
    visit: Visit,
    start: Tables,
    ok: bool,
)
    requires
        in_step(stage, storage, visit, start),
        stage.spec_command() is Some,
    ensures
        in_step(
            stage.spec_advance(ok),
            storage.apply(stage.spec_command()->Some_0, visit, ok),
            visit,
            start,
        ),
{
}

/// Whatever the outcomes of the round-trips, a request that has ended left
/// the storage in one of three states, and its result says which. On
/// `Schema` nothing changed. On `Write` the schema exists and no row
/// changed: neither the counter nor the coordinate shows a part of the
/// visit. On success, and on `Read`, the whole visit is committed. No
/// transaction stays open.
pub proof fn law_request_atomic(start: Tables, visit: Visit, outcomes: Seq<bool>)
    ensures
        ({
            let (stage, storage) = run(
                Stage::spec_first(),
                (Storage { committed: start, staged: None }),
                visit,
                outcomes,
            );
            &&& in_step(stage, storage, visit, start)
            &&& stage == Stage::Failed(StoreError::Schema) ==> storage.committed == start
            &&& stage == Stage::Failed(StoreError::Write) ==> storage.committed
                == start.ensure_schema()
            &&& (stage == Stage::Done || stage == Stage::Failed(StoreError::Read))
                ==> storage.committed == start.ensure_schema().record_visit(visit)
            &&& stage.is_final() ==> storage.staged is None
        }),
{
    lemma_run_in_step(
        Stage::spec_first(),
        (Storage { committed: start, staged: None }),
        visit,
        start,
        outcomes,
    );
}

proof fn lemma_run_in_step(
    stage: Stage,
    storage: Storage,
    visit: Visit,
    start: Tables,
    outcomes: Seq<bool>,
)
    requires
        in_step(stage, storage, visit, start),
    ensures
        in_step(
            run(stage, storage, visit, outcomes).0,
            run(stage, storage, visit, outcomes).1,
            visit,
            start,
        ),
    decreases outcomes.len(),
{
    if outcomes.len() > 0 && stage.spec_command() is Some {
        law_round_trip_in_step(stage, storage, visit, start, outcomes[0]);
        lemma_run_in_step(
            stage.spec_advance(outcomes[0]),
            storage.apply(stage.spec_command()->Some_0, visit, outcomes[0]),
            visit,
            start,
            outcomes.drop_first(),
        );
    }
}

/// Nine successful round-trips complete a request.
pub proof fn law_request_completes(start: Tables, visit: Visit)
    ensures
        run(
            Stage::spec_first(),
            (Storage { committed: start, staged: None }),
            visit,
            Seq::new(9, |i: int| true),
        ).0 == Stage::Done,
{
    reveal_with_fuel(run, 10);
    let outcomes = Seq::new(9, |i: int| true);
    assert(outcomes.len() == 9);
}

} // verus!
