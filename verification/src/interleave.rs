//! Statements of several requests, interleaved.
//!
//! The storage may run the statements of concurrent requests in any order.
//! Because a counter is bumped by a relative update, and never by writing
//! back a value read earlier, no interleaving loses an update.

use crate::plan::Statement;
use crate::rows::CoordinateKey;
use crate::rows::CounterKey;
use crate::tables::Tables;
use crate::tables::Visit;
use vstd::prelude::*;

verus! {

/// One statement, run on behalf of one visit.
pub type Step = (Statement, Visit);

/// The step upserts the counter `key`.
pub open spec fn upserts(step: Step, key: CounterKey) -> bool {
    step.0 == Statement::UpsertCounter && step.1.counter_key() == key
}

/// The step increments the counter `key`.
pub open spec fn increments(step: Step, key: CounterKey) -> bool {
    step.0 == Statement::IncrementCounter && step.1.counter_key() == key
}

/// The step inserts the coordinate `key`.
pub open spec fn inserts(step: Step, key: CoordinateKey) -> bool {
    step.0 == Statement::InsertCoordinate && step.1.coordinate_key() == key
}

/// The tables after the steps have run, one after the other, every one of
/// them with success.
pub open spec fn run_steps(tables: Tables, steps: Seq<Step>) -> Tables
    decreases steps.len(),
{
    if steps.len() == 0 {
        tables
    } else {
        steps.last().0.effect(steps.last().1, run_steps(tables, steps.drop_last()))
    }
}

/// How many of the steps increment the counter `key`.
pub open spec fn increments_of(steps: Seq<Step>, key: CounterKey) -> nat
    decreases steps.len(),
{
    if steps.len() == 0 {
        0
    } else {
        increments_of(steps.drop_last(), key) + if increments(steps.last(), key) {
            1nat
        } else {
            0nat
        }
    }
}

/// Some step before position `end` upserts the counter `key`.
pub open spec fn upserted_before(steps: Seq<Step>, end: int, key: CounterKey) -> bool {
    exists|j: int| 0 <= j < end && j < steps.len() && upserts(#[trigger] steps[j], key)
}

/// Every increment of `key` finds a row: the counter had one from the
/// start, or an upsert of `key` ran earlier. This is all that the order of
/// the steps has to respect.
pub open spec fn upsert_comes_first(tables: Tables, steps: Seq<Step>, key: CounterKey) -> bool {
    tables.counters.dom().contains(key) || forall|i: int|
        0 <= i < steps.len() && increments(#[trigger] steps[i], key) ==> upserted_before(
            steps,
            i,
            key,
        )
}

/// A counter has a row after the steps if it had one before or a step
/// upserted it: rows are never deleted.
pub proof fn law_rows_stay(tables: Tables, steps: Seq<Step>, key: CounterKey)
    requires
        tables.counters.dom().contains(key) || upserted_before(steps, steps.len() as int, key),
    ensures
        run_steps(tables, steps).counters.dom().contains(key),
    decreases steps.len(),
{
    if steps.len() > 0 {
        let front = steps.drop_last();
        if !upserts(steps.last(), key) {
            if !tables.counters.dom().contains(key) {
                let j = choose|j: int|
                    0 <= j < steps.len() && j < steps.len() && upserts(#[trigger] steps[j], key);
                assert(front[j] == steps[j]);
            }
            law_rows_stay(tables, front, key);
        }
    }
}

/// However the statements of concurrent requests interleave, a counter
/// ends up higher by exactly the number of increments made to it: no update
/// is lost and none counts twice.
pub proof fn law_no_lost_update(tables: Tables, steps: Seq<Step>, key: CounterKey)
    requires
        upsert_comes_first(tables, steps, key),
    ensures
        run_steps(tables, steps).counter(key) == tables.counter(key) + increments_of(steps, key),
    decreases steps.len(),
{
    if steps.len() > 0 {
        let front = steps.drop_last();
        let last = steps.last();
        assert(upsert_comes_first(tables, front, key)) by {
            if !tables.counters.dom().contains(key) {
                assert forall|i: int|
                    0 <= i < front.len() && increments(#[trigger] front[i], key) implies upserted_before(
                    front,
                    i,
                    key,
                ) by {
                    assert(front[i] == steps[i]);
                    let j = choose|j: int|
                        0 <= j < i && j < steps.len() && upserts(#[trigger] steps[j], key);
                    assert(front[j] == steps[j]);
                }
            }
        }
        law_no_lost_update(tables, front, key);
        if increments(last, key) {
            assert(steps[steps.len() - 1] == last);
            if !tables.counters.dom().contains(key) {
                let j = choose|j: int|
                    0 <= j < steps.len() - 1 && j < steps.len() && upserts(
                        #[trigger] steps[j],
                        key,
                    );
                assert(front[j] == steps[j]);
            }
            law_rows_stay(tables, front, key);
        }
    }
}

/// However the statements of concurrent requests interleave, a coordinate
/// has a row afterwards exactly if it had one before or some step inserted
/// it. A row that was there keeps its airport; a new row carries the
/// airport of one of the steps that inserted the coordinate.
pub proof fn law_coordinate_written_once(tables: Tables, steps: Seq<Step>, key: CoordinateKey)
    ensures
        run_steps(tables, steps).coordinates.dom().contains(key) <==> (
        tables.coordinates.dom().contains(key) || exists|j: int|
            0 <= j < steps.len() && inserts(#[trigger] steps[j], key)),
        tables.coordinates.dom().contains(key) ==> run_steps(tables, steps).coordinates[key]
            == tables.coordinates[key],
        !tables.coordinates.dom().contains(key) && run_steps(
            tables,
            steps,
        ).coordinates.dom().contains(key) ==> exists|j: int|
            0 <= j < steps.len() && inserts(#[trigger] steps[j], key) && run_steps(
                tables,
                steps,
            ).coordinates[key] == steps[j].1.airport,
    decreases steps.len(),
{
    if steps.len() > 0 {
        let front = steps.drop_last();
        let last = steps.last();
        let n = steps.len() - 1;
        law_coordinate_written_once(tables, front, key);
        let before = run_steps(tables, front).coordinates;
        let after = run_steps(tables, steps).coordinates;
        assert(steps[n] == last);
        if exists|j: int| 0 <= j < front.len() && inserts(#[trigger] front[j], key) {
            let j = choose|j: int| 0 <= j < front.len() && inserts(#[trigger] front[j], key);
            assert(steps[j] == front[j]);
        }
        if exists|j: int| 0 <= j < steps.len() && inserts(#[trigger] steps[j], key) {
            let j = choose|j: int| 0 <= j < steps.len() && inserts(#[trigger] steps[j], key);
            if j < n {
                assert(front[j] == steps[j]);
            }
        }
        if !tables.coordinates.dom().contains(key) && after.dom().contains(key) {
            if before.dom().contains(key) {
                let j = choose|j: int|
                    0 <= j < front.len() && inserts(#[trigger] front[j], key) && before[key]
                        == front[j].1.airport;
                assert(steps[j] == front[j]);
                assert(inserts(steps[j], key) && after[key] == steps[j].1.airport);
            } else {
                assert(inserts(steps[n], key) && after[key] == steps[n].1.airport);
            }
        }
    }
}

} // verus!
