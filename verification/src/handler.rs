//! One page load, start to end: ensure the schema, record the visit, list
//! both tables and render the page.

use crate::plan::in_step;
use crate::plan::law_round_trip_in_step;
use crate::plan::Stage;
use crate::plan::VisitRequest;
use crate::render::counter_cells;
use crate::render::counter_cells_match;
use crate::render::create_map_canvas;
use crate::render::page;
use crate::render::result_to_html_table;
use crate::render::spec_html_table;
use crate::render::spec_map_canvas;
use crate::render::spec_page;
use crate::rows::CoordinateRow;
use crate::rows::CounterRow;
use crate::store::accepts;
use crate::store::coordinate_rows_wf;
use crate::store::coordinate_table;
use crate::store::counter_rows_wf;
use crate::store::counter_table;
use crate::store::StoreError;
use crate::store::VisitStore;
use crate::tables::Tables;
use crate::tables::Visit;
use vstd::prelude::*;

verus! {

/// The scoreboard's column names are country, city and value, in this order.
pub open spec fn is_scoreboard_header(columns: Seq<String>) -> bool {
    &&& columns.len() == 3
    &&& columns[0]@ == "country"@
    &&& columns[1]@ == "city"@
    &&& columns[2]@ == "value"@
}

/// `html` is the page for these rows, and the rows are exactly what the
/// tables hold, one row per key, in some order.
pub open spec fn renders(
    tables: Tables,
    counters: Seq<CounterRow>,
    coordinates: Seq<CoordinateRow>,
    columns: Seq<String>,
    cells: Seq<Vec<String>>,
    html: Seq<char>,
) -> bool {
    &&& counter_rows_wf(counters)
    &&& counter_table(counters) == tables.counters
    &&& coordinate_rows_wf(coordinates)
    &&& coordinate_table(coordinates) == tables.coordinates
    &&& is_scoreboard_header(columns)
    &&& counter_cells_match(counters, cells)
    &&& html == spec_page(spec_map_canvas(coordinates), spec_html_table(columns, cells))
}

/// `html` is the page for the tables, for some order of their rows.
pub open spec fn page_shows(tables: Tables, html: Seq<char>) -> bool {
    exists|
        counters: Seq<CounterRow>,
        coordinates: Seq<CoordinateRow>,
        columns: Seq<String>,
        cells: Seq<Vec<String>>,
    | #[trigger]
        renders(tables, counters, coordinates, columns, cells, html)
}

/// The column names of the scoreboard.
pub fn scoreboard_header() -> (columns: Vec<String>)
    ensures
        is_scoreboard_header(columns@),
{
    let mut columns: Vec<String> = Vec::new();
    columns.push(String::from_str("country"));
    columns.push(String::from_str("city"));
    columns.push(String::from_str("value"));
    columns
}

/// What the stage of a request tells about the counter it set out to bump,
/// on a store that fails a write only where the count cannot grow.
spec fn on_track(stage: Stage, start: Tables, visit: Visit) -> bool {
    let room = start.counter(visit.counter_key()) < u64::MAX;
    match stage {
        Stage::Failed(StoreError::Schema) | Stage::Failed(StoreError::Read) => false,
        Stage::Inserting
        | Stage::Committing
        | Stage::ReadingCounters
        | Stage::ReadingCoordinates
        | Stage::Done => room,
        Stage::RollingBack | Stage::Failed(StoreError::Write) => !room,
        _ => true,
    }
}

/// Runs the round-trips of one request against the store, one command
/// after the other, until none is left. The visit is committed as a whole
/// or not at all. It fails, with `Write`, exactly where a transaction is
/// open on the store already or the counter of the visit cannot grow any
/// further; the schema is ensured either way.
pub fn run_request(db: &mut VisitStore, request: &VisitRequest) -> (res: Result<(), StoreError>)
    requires
        old(db).wf(),
    ensures
        final(db).wf(),
        final(db).staged() == old(db).staged(),
        res is Ok <==> old(db).staged() is None && old(db)@.counter(request@.counter_key())
            < u64::MAX,
        res is Ok ==> final(db)@ == old(db)@.ensure_schema().record_visit(request@),
        res is Err ==> res == Err::<(), StoreError>(StoreError::Write) && final(db)@ == old(
            db,
        )@.ensure_schema(),
{
    if db.in_transaction() {
        let _ = db.ensure_schema();
        return Err(StoreError::Write);
    }
    let ghost start = db@;
    let mut stage = Stage::first();
    let mut next = stage.command();
    while next.is_some()
        invariant
            db.wf(),
            next == stage.spec_command(),
            in_step(stage, db.storage(), request@, start),
            on_track(stage, start, request@),
        decreases stage.remaining(),
    {
        let command = next.unwrap();
        proof {
            law_round_trip_in_step(
                stage,
                db.storage(),
                request@,
                start,
                accepts(db.storage(), command, request@),
            );
        }
        let ok = db.perform(command, request);
        stage = stage.advance(ok);
        next = stage.command();
    }
    match stage.outcome() {
        Some(outcome) => outcome,
        None => Err(StoreError::Write),
    }
}

/// Serves a request to load the page. The schema is ensured, the visit is
/// recorded as one unit, and the page shows both tables as they then are.
/// It fails, with `Write`, exactly where a transaction is open on the store
/// or the counter of (country, city) cannot grow any further; the store then
/// holds what it held before, with its schema ensured.
pub fn serve(
    airport: &str,
    country: &str,
    city: &str,
    lat: i32,
    long: i32,
    db: &mut VisitStore,
) -> (res: Result<String, StoreError>)
    requires
        old(db).wf(),
    ensures
        final(db).wf(),
        final(db).staged() == old(db).staged(),
        res is Ok <==> old(db).staged() is None && old(db)@.counter((country@, city@))
            < u64::MAX,
        res is Ok ==> final(db)@ == old(db)@.ensure_schema().record_visit(
            (Visit {
                airport: airport@,
                country: country@,
                city: city@,
                lat: lat as int,
                long: long as int,
            }),
        ) && page_shows(final(db)@, res->Ok_0@),
        res is Err ==> res == Err::<String, StoreError>(StoreError::Write) && final(db)@ == old(
            db,
        )@.ensure_schema(),
{
    let request = VisitRequest {
        airport: String::from_str(airport),
        country: String::from_str(country),
        city: String::from_str(city),
        lat,
        long,
    };
    match run_request(db, &request) {
        Ok(()) => {},
        Err(error) => {
            return Err(error);
        },
    }
    let counters = match db.list_counters() {
        Ok(rows) => rows,
        Err(error) => {
            return Err(error);
        },
    };
    let coordinates = match db.list_coordinates() {
        Ok(rows) => rows,
        Err(error) => {
            return Err(error);
        },
    };
    let columns = scoreboard_header();
    let cells = counter_cells(&counters);
    let scoreboard = result_to_html_table(&columns, &cells);
    let canvas = create_map_canvas(&coordinates);
    let html = page(canvas.as_str(), scoreboard.as_str());
    proof {
        assert(renders(db@, counters@, coordinates@, columns@, cells@, html@));
    }
    Ok(html)
}

} // verus!
