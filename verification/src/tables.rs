//! The mathematical model of the two tables, the effect of each write on
//! them, and the laws that follow.

use crate::rows::CoordinateKey;
use crate::rows::CounterKey;
use vstd::prelude::*;

verus! {

/// One visit, as the recording routine receives it.
pub struct Visit {
    pub airport: Seq<char>,
    pub country: Seq<char>,
    pub city: Seq<char>,
    pub lat: int,
    pub long: int,
}

impl Visit {
    /// The counter that the visit bumps.
    pub open spec fn counter_key(self) -> CounterKey {
        (self.country, self.city)
    }

    /// The coordinate that the visit records.
    pub open spec fn coordinate_key(self) -> CoordinateKey {
        (self.lat, self.long)
    }
}

/// The stored state: whether the schema exists, and the two tables as maps
/// from natural key to attribute. The store is `ready` once both tables
/// have been created; a coordinate is kept in units of 1e-7 degrees.
pub struct Tables {
    pub ready: bool,
    pub counters: Map<CounterKey, nat>,
    pub coordinates: Map<CoordinateKey, Seq<char>>,
}

/// A storage with transactions: what is committed, and what an open
/// transaction has staged.
pub struct Storage {
    pub committed: Tables,
    pub staged: Option<Tables>,
}

impl Tables {
    /// A fresh store: no schema, no rows.
    pub open spec fn empty() -> Tables {
        Tables { ready: false, counters: Map::empty(), coordinates: Map::empty() }
    }

    /// Creates both tables if absent; rows are left as they are.
    pub open spec fn ensure_schema(self) -> Tables {
        Tables { ready: true, ..self }
    }

    /// The count stored for `key`, zero where there is no row.
    pub open spec fn counter(self, key: CounterKey) -> nat {
        if self.counters.dom().contains(key) {
            self.counters[key]
        } else {
            0
        }
    }

    /// Inserts a zero counter for `key` unless a row exists.
    pub open spec fn upsert_counter(self, key: CounterKey) -> Tables {
        if self.counters.dom().contains(key) {
            self
        } else {
            Tables { counters: self.counters.insert(key, 0), ..self }
        }
    }

    /// Adds one to the counter for `key`, relative to what is stored; without
    /// a row nothing changes.
    pub open spec fn increment_counter(self, key: CounterKey) -> Tables {
        if self.counters.dom().contains(key) {
            Tables { counters: self.counters.insert(key, self.counters[key] + 1), ..self }
        } else {
            self
        }
    }

    /// Inserts the coordinate with its airport unless a row exists.
    pub open spec fn insert_coordinate(self, key: CoordinateKey, airport: Seq<char>) -> Tables {
        if self.coordinates.dom().contains(key) {
            self
        } else {
            Tables { coordinates: self.coordinates.insert(key, airport), ..self }
        }
    }

    /// The three writes of one visit, in order.
    pub open spec fn record_visit(self, visit: Visit) -> Tables {
        self.upsert_counter(visit.counter_key()).increment_counter(
            visit.counter_key(),
        ).insert_coordinate(visit.coordinate_key(), visit.airport)
    }

    /// A run of visits, recorded one after the other.
    pub open spec fn record_all(self, visits: Seq<Visit>) -> Tables
        decreases visits.len(),
    {
        if visits.len() == 0 {
            self
        } else {
            self.record_all(visits.drop_last()).record_visit(visits.last())
        }
    }
}

/// How many of `visits` bump the counter `key`.
pub open spec fn visits_to(visits: Seq<Visit>, key: CounterKey) -> nat
    decreases visits.len(),
{
    if visits.len() == 0 {
        0
    } else {
        visits_to(visits.drop_last(), key) + if visits.last().counter_key() == key {
            1nat
        } else {
            0nat
        }
    }
}

/// Some visit in `visits` records the coordinate `key`.
pub open spec fn visits_reach(visits: Seq<Visit>, key: CoordinateKey) -> bool {
    exists|i: int| 0 <= i < visits.len() && (#[trigger] visits[i]).coordinate_key() == key
}

/// One visit adds exactly one to its own counter, leaves every other counter
/// alone, and makes sure its coordinate has a row.
pub proof fn law_one_visit(tables: Tables, visit: Visit, key: CounterKey)
    ensures
        tables.record_visit(visit).counter(visit.counter_key()) == tables.counter(
            visit.counter_key(),
        ) + 1,
        key != visit.counter_key() ==> tables.record_visit(visit).counter(key) == tables.counter(
            key,
        ),
        key != visit.counter_key() ==> (tables.record_visit(visit).counters.dom().contains(key)
            <==> tables.counters.dom().contains(key)),
        tables.record_visit(visit).coordinates.dom().contains(visit.coordinate_key()),
        tables.record_visit(visit).ready == tables.ready,
{
}

/// After any run of visits each counter has grown by exactly the number of
/// visits made to it: no update is lost, none is counted twice, and visits to
/// other keys do not show.
pub proof fn law_counter_counts_visits(tables: Tables, visits: Seq<Visit>, key: CounterKey)
    ensures
        tables.record_all(visits).counter(key) == tables.counter(key) + visits_to(visits, key),
    decreases visits.len(),
{
    if visits.len() > 0 {
        law_counter_counts_visits(tables, visits.drop_last(), key);
        law_one_visit(tables.record_all(visits.drop_last()), visits.last(), key);
    }
}

/// A run of visits that all go to one key raises that key's counter by the
/// length of the run.
pub proof fn law_exactly_once(tables: Tables, visits: Seq<Visit>, key: CounterKey)
    requires
        forall|i: int| 0 <= i < visits.len() ==> (#[trigger] visits[i]).counter_key() == key,
    ensures
        tables.record_all(visits).counter(key) == tables.counter(key) + visits.len(),
    decreases visits.len(),
{
    if visits.len() > 0 {
        let front = visits.drop_last();
        assert forall|i: int| 0 <= i < front.len() implies (#[trigger] front[i]).counter_key()
            == key by {
            assert(front[i] == visits[i]);
        }
        law_exactly_once(tables, front, key);
        assert(visits.last() == visits[visits.len() - 1]);
        law_one_visit(tables.record_all(front), visits.last(), key);
    }
}

/// A run of visits none of which goes to `key` leaves that counter as it was.
pub proof fn law_isolation(tables: Tables, visits: Seq<Visit>, key: CounterKey)
    requires
        forall|i: int| 0 <= i < visits.len() ==> (#[trigger] visits[i]).counter_key() != key,
    ensures
        tables.record_all(visits).counter(key) == tables.counter(key),
        tables.record_all(visits).counters.dom().contains(key) <==> tables.counters.dom().contains(
            key,
        ),
    decreases visits.len(),
{
    if visits.len() > 0 {
        let front = visits.drop_last();
        assert forall|i: int| 0 <= i < front.len() implies (#[trigger] front[i]).counter_key()
            != key by {
            assert(front[i] == visits[i]);
        }
        law_isolation(tables, front, key);
        assert(visits.last() == visits[visits.len() - 1]);
        law_one_visit(tables.record_all(front), visits.last(), key);
    }
}

/// After a run of visits a counter has a row exactly if it had one before or
/// some visit of the run went to it.
pub proof fn law_counter_rows(tables: Tables, visits: Seq<Visit>, key: CounterKey)
    ensures
        tables.record_all(visits).counters.dom().contains(key) <==> (
        tables.counters.dom().contains(key) || visits_to(visits, key) > 0),
    decreases visits.len(),
{
    if visits.len() > 0 {
        law_counter_rows(tables, visits.drop_last(), key);
    }
}

/// The counters do not depend on how the visits interleave: two runs that
/// visit every key equally often leave the same counter table.
pub proof fn law_any_interleaving(tables: Tables, one: Seq<Visit>, other: Seq<Visit>)
    requires
        forall|key: CounterKey| visits_to(one, key) == visits_to(other, key),
    ensures
        tables.record_all(one).counters == tables.record_all(other).counters,
{
    let left = tables.record_all(one).counters;
    let right = tables.record_all(other).counters;
    assert forall|key: CounterKey| left.dom().contains(key) == right.dom().contains(key) by {
        law_counter_rows(tables, one, key);
        law_counter_rows(tables, other, key);
    }
    assert forall|key: CounterKey| left.dom().contains(key) implies left[key] == right[key] by {
        law_counter_counts_visits(tables, one, key);
        law_counter_counts_visits(tables, other, key);
        assert(tables.record_all(one).counter(key) == left[key]);
        assert(tables.record_all(other).counter(key) == right[key]);
    }
    assert(left =~= right);
}

/// Which coordinates have a row does not depend on how the visits
/// interleave either; only the surviving airport may.
pub proof fn law_coordinates_any_interleaving(tables: Tables, one: Seq<Visit>, other: Seq<Visit>)
    requires
        forall|key: CoordinateKey| visits_reach(one, key) == visits_reach(other, key),
    ensures
        tables.record_all(one).coordinates.dom() == tables.record_all(other).coordinates.dom(),
{
    let left = tables.record_all(one).coordinates.dom();
    let right = tables.record_all(other).coordinates.dom();
    assert forall|key: CoordinateKey| left.contains(key) == right.contains(key) by {
        law_coordinate_recorded(tables, one, key);
        law_coordinate_recorded(tables, other, key);
    }
    assert(left =~= right);
}

/// The counters do not depend on the order in which two visits arrive.
pub proof fn law_visits_commute(tables: Tables, first: Visit, second: Visit)
    ensures
        tables.record_visit(first).record_visit(second).counters == tables.record_visit(
            second,
        ).record_visit(first).counters,
        tables.record_visit(first).record_visit(second).coordinates.dom()
            == tables.record_visit(second).record_visit(first).coordinates.dom(),
{
    assert(tables.record_visit(first).record_visit(second).counters =~= tables.record_visit(
        second,
    ).record_visit(first).counters);
    assert(tables.record_visit(first).record_visit(second).coordinates.dom()
        =~= tables.record_visit(second).record_visit(first).coordinates.dom());
}

/// Counts never decrease, and a run of visits raises a counter by at most
/// the length of the run.
pub proof fn law_counters_monotonic(tables: Tables, visits: Seq<Visit>, key: CounterKey)
    ensures
        tables.counter(key) <= tables.record_all(visits).counter(key) <= tables.counter(key)
            + visits.len(),
    decreases visits.len(),
{
    if visits.len() > 0 {
        law_counters_monotonic(tables, visits.drop_last(), key);
        law_one_visit(tables.record_all(visits.drop_last()), visits.last(), key);
    }
}

/// A coordinate that has a row keeps it, with the airport it was first
/// written with, whatever visits follow.
pub proof fn law_coordinate_kept(tables: Tables, visits: Seq<Visit>, key: CoordinateKey)
    requires
        tables.coordinates.dom().contains(key),
    ensures
        tables.record_all(visits).coordinates.dom().contains(key),
        tables.record_all(visits).coordinates[key] == tables.coordinates[key],
    decreases visits.len(),
{
    if visits.len() > 0 {
        law_coordinate_kept(tables, visits.drop_last(), key);
    }
}

/// After a run of visits a coordinate has a row exactly if it had one before
/// or some visit of the run recorded it.
pub proof fn law_coordinate_recorded(tables: Tables, visits: Seq<Visit>, key: CoordinateKey)
    ensures
        tables.record_all(visits).coordinates.dom().contains(key) <==> (
        tables.coordinates.dom().contains(key) || visits_reach(visits, key)),
    decreases visits.len(),
{
    if visits.len() > 0 {
        let front = visits.drop_last();
        law_coordinate_recorded(tables, front, key);
        if visits_reach(front, key) {
            let i = choose|i: int|
                0 <= i < front.len() && (#[trigger] front[i]).coordinate_key() == key;
            assert(visits[i].coordinate_key() == key);
        }
        if visits_reach(visits, key) {
            let i = choose|i: int|
                0 <= i < visits.len() && (#[trigger] visits[i]).coordinate_key() == key;
            if i < front.len() {
                assert(front[i].coordinate_key() == key);
            }
        }
        if visits.last().coordinate_key() == key {
            assert(visits[visits.len() - 1].coordinate_key() == key);
        }
    }
}

/// Two visits from one coordinate leave the airport of the first.
pub proof fn law_first_airport_survives(tables: Tables, first: Visit, second: Visit)
    requires
        first.coordinate_key() == second.coordinate_key(),
    ensures
        tables.record_visit(first).record_visit(second).coordinates == tables.record_visit(
            first,
        ).coordinates,
{
}

/// Ensuring the schema a second time changes nothing, and ensuring it at all
/// leaves every row untouched.
pub proof fn law_schema_idempotent(tables: Tables)
    ensures
        tables.ensure_schema().ensure_schema() == tables.ensure_schema(),
        tables.ensure_schema().counters == tables.counters,
        tables.ensure_schema().coordinates == tables.coordinates,
        tables.ensure_schema().ready,
{
}

} // verus!
