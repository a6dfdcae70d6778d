//! An in-memory visit store: the two tables held as rows, with the writes of
//! one visit staged in a transaction and committed together or not at all.

use crate::assoc::distinct_keys;
use crate::assoc::entries_map;
use crate::assoc::has_key;
use crate::assoc::lemma_distinct_push;
use crate::assoc::lemma_entries_at;
use crate::assoc::lemma_entries_dom;
use crate::assoc::lemma_entries_push;
use crate::assoc::lemma_entries_update;
use crate::plan::Command;
use crate::plan::Statement;
use crate::plan::VisitRequest;
use crate::rows::coordinate_entries;
use crate::rows::counter_entries;
use crate::rows::CoordinateKey;
use crate::rows::CoordinateRow;
use crate::rows::CounterKey;
use crate::rows::CounterRow;
use crate::tables::Storage;
use crate::tables::Tables;
use crate::tables::Visit;
use vstd::prelude::*;

verus! {

/// Why a store operation failed.
#[derive(Clone, Copy, Debug, PartialEq, Eq, Structural)]
pub enum StoreError {
    /// The storage rejected the table definitions; no visit is recorded.
    Schema,
    /// The recording transaction failed; nothing of it persists.
    Write,
    /// A list query failed.
    Read,
}

/// The counter table that a sequence of rows denotes.
pub open spec fn counter_table(rows: Seq<CounterRow>) -> Map<CounterKey, nat> {
    entries_map(counter_entries(rows))
}

/// The coordinate table that a sequence of rows denotes.
pub open spec fn coordinate_table(rows: Seq<CoordinateRow>) -> Map<CoordinateKey, Seq<char>> {
    entries_map(coordinate_entries(rows))
}

/// Each counter key occurs in at most one row.
pub open spec fn counter_rows_wf(rows: Seq<CounterRow>) -> bool {
    distinct_keys(counter_entries(rows))
}

/// Each coordinate key occurs in at most one row.
pub open spec fn coordinate_rows_wf(rows: Seq<CoordinateRow>) -> bool {
    distinct_keys(coordinate_entries(rows))
}

/// Among rows with unique keys, each key of the coordinate table has
/// exactly one row, however often the coordinate was visited.
pub proof fn law_one_row_per_coordinate(rows: Seq<CoordinateRow>, key: CoordinateKey)
    requires
        coordinate_rows_wf(rows),
        coordinate_table(rows).dom().contains(key),
    ensures
        exists|i: int|
            0 <= i < rows.len() && (#[trigger] rows[i]).key() == key && forall|j: int|
                0 <= j < rows.len() && (#[trigger] rows[j]).key() == key ==> j == i,
{
    let entries = coordinate_entries(rows);
    lemma_entries_dom(entries, key);
    let i = choose|i: int| 0 <= i < entries.len() && (#[trigger] entries[i]).0 == key;
    assert forall|j: int| 0 <= j < rows.len() && (#[trigger] rows[j]).key() == key implies j
        == i by {
        assert(entries[j].0 == key);
        if j < i {
            assert(entries[j].0 != entries[i].0);
        } else if i < j {
            assert(entries[i].0 != entries[j].0);
        }
    }
    assert(rows[i].key() == key);
}

/// Among rows with unique keys, each key of the counter table has exactly
/// one row, and that row holds the count.
pub proof fn law_one_row_per_counter(rows: Seq<CounterRow>, key: CounterKey)
    requires
        counter_rows_wf(rows),
        counter_table(rows).dom().contains(key),
    ensures
        exists|i: int|
            0 <= i < rows.len() && (#[trigger] rows[i]).key() == key && rows[i].value
                == counter_table(rows)[key] && forall|j: int|
                0 <= j < rows.len() && (#[trigger] rows[j]).key() == key ==> j == i,
{
    let entries = counter_entries(rows);
    lemma_entries_dom(entries, key);
    let i = choose|i: int| 0 <= i < entries.len() && (#[trigger] entries[i]).0 == key;
    lemma_entries_at(entries, i);
    assert forall|j: int| 0 <= j < rows.len() && (#[trigger] rows[j]).key() == key implies j
        == i by {
        assert(entries[j].0 == key);
        if j < i {
            assert(entries[j].0 != entries[i].0);
        } else if i < j {
            assert(entries[i].0 != entries[j].0);
        }
    }
    assert(rows[i].key() == key);
}

fn find_counter(rows: &Vec<CounterRow>, country: &String, city: &String) -> (res: Option<usize>)
    ensures
        match res {
            Some(i) => i < rows.len() && rows[i as int].key() == (country@, city@),
            None => !has_key(counter_entries(rows@), (country@, city@)),
        },
{
    let mut i: usize = 0;
    while i < rows.len()
        invariant
            i <= rows.len(),
            forall|j: int| 0 <= j < i ==> rows[j].key() != (country@, city@),
        decreases rows.len() - i,
    {
        if rows[i].country == *country && rows[i].city == *city {
            return Some(i);
        }
        i += 1;
    }
    proof {
        let entries = counter_entries(rows@);
        assert forall|j: int| 0 <= j < entries.len() implies (#[trigger] entries[j]).0 != (
            country@,
            city@,
        ) by {
            assert(rows[j].key() != (country@, city@));
        }
    }
    None
}

fn find_coordinate(rows: &Vec<CoordinateRow>, lat: i32, long: i32) -> (res: Option<usize>)
    ensures
        match res {
            Some(i) => i < rows.len() && rows[i as int].key() == (lat as int, long as int),
            None => !has_key(coordinate_entries(rows@), (lat as int, long as int)),
        },
{
    let mut i: usize = 0;
    while i < rows.len()
        invariant
            i <= rows.len(),
            forall|j: int| 0 <= j < i ==> rows[j].key() != (lat as int, long as int),
        decreases rows.len() - i,
    {
        if rows[i].lat == lat && rows[i].long == long {
            return Some(i);
        }
        i += 1;
    }
    proof {
        let entries = coordinate_entries(rows@);
        assert forall|j: int| 0 <= j < entries.len() implies (#[trigger] entries[j]).0 != (
            lat as int,
            long as int,
        ) by {
            assert(rows[j].key() != (lat as int, long as int));
        }
    }
    None
}

/// Appends a zero counter for the key unless a row has it.
fn upsert_row(rows: &mut Vec<CounterRow>, country: &str, city: &str)
    requires
        counter_rows_wf(old(rows)@),
    ensures
        counter_rows_wf(final(rows)@),
        counter_table(final(rows)@) == if counter_table(old(rows)@).dom().contains(
            (country@, city@),
        ) {
            counter_table(old(rows)@)
        } else {
            counter_table(old(rows)@).insert((country@, city@), 0)
        },
{
    let country = String::from_str(country);
    let city = String::from_str(city);
    let ghost key = (country@, city@);
    let ghost before = counter_entries(rows@);
    proof {
        lemma_entries_dom(before, key);
    }
    match find_counter(rows, &country, &city) {
        Some(i) => {
            proof {
                assert(before[i as int].0 == key);
            }
        },
        None => {
            proof {
                lemma_entries_push(before, (key, 0nat));
                lemma_distinct_push(before, (key, 0nat));
            }
            rows.push(CounterRow { country, city, value: 0 });
            proof {
                assert(counter_entries(rows@) =~= before.push((key, 0nat)));
            }
        },
    }
}

/// Adds one to the counter of the key, where a row has it. Reports `false`,
/// and changes nothing, where the count cannot grow.
fn increment_row(rows: &mut Vec<CounterRow>, country: &str, city: &str) -> (ok: bool)
    requires
        counter_rows_wf(old(rows)@),
    ensures
        counter_rows_wf(final(rows)@),
        ok <==> !(counter_table(old(rows)@).dom().contains((country@, city@)) && counter_table(
            old(rows)@,
        )[(country@, city@)] >= u64::MAX),
        ok ==> counter_table(final(rows)@) == if counter_table(old(rows)@).dom().contains(
            (country@, city@),
        ) {
            counter_table(old(rows)@).insert(
                (country@, city@),
                counter_table(old(rows)@)[(country@, city@)] + 1,
            )
        } else {
            counter_table(old(rows)@)
        },
        !ok ==> final(rows)@ == old(rows)@,
{
    let country = String::from_str(country);
    let city = String::from_str(city);
    let ghost key = (country@, city@);
    let ghost before = counter_entries(rows@);
    proof {
        lemma_entries_dom(before, key);
    }
    match find_counter(rows, &country, &city) {
        Some(i) => {
            let current: u64 = rows[i].value;
            proof {
                assert(before[i as int].0 == key);
                lemma_entries_at(before, i as int);
            }
            if current == u64::MAX {
                return false;
            }
            proof {
                lemma_entries_update(before, i as int, (key, (current + 1) as nat));
            }
            rows.set(i, CounterRow { country, city, value: current + 1 });
            proof {
                assert(counter_entries(rows@) =~= before.update(
                    i as int,
                    (key, (current + 1) as nat),
                ));
            }
            true
        },
        None => true,
    }
}

/// Appends the coordinate with its airport unless a row has the key.
fn insert_place(rows: &mut Vec<CoordinateRow>, lat: i32, long: i32, airport: &str)
    requires
        coordinate_rows_wf(old(rows)@),
    ensures
        coordinate_rows_wf(final(rows)@),
        coordinate_table(final(rows)@) == if coordinate_table(old(rows)@).dom().contains(
            (lat as int, long as int),
        ) {
            coordinate_table(old(rows)@)
        } else {
            coordinate_table(old(rows)@).insert((lat as int, long as int), airport@)
        },
{
    let ghost place = (lat as int, long as int);
    let ghost seen = coordinate_entries(rows@);
    proof {
        lemma_entries_dom(seen, place);
    }
    match find_coordinate(rows, lat, long) {
        Some(i) => {
            proof {
                assert(seen[i as int].0 == place);
            }
        },
        None => {
            proof {
                lemma_entries_push(seen, (place, airport@));
                lemma_distinct_push(seen, (place, airport@));
            }
            rows.push(CoordinateRow { lat, long, airport: String::from_str(airport) });
            proof {
                assert(coordinate_entries(rows@) =~= seen.push((place, airport@)));
            }
        },
    }
}

fn copy_counters(rows: &Vec<CounterRow>) -> (copy: Vec<CounterRow>)
    ensures
        copy@ == rows@,
{
    let mut copy: Vec<CounterRow> = Vec::new();
    let mut i: usize = 0;
    while i < rows.len()
        invariant
            i <= rows.len(),
            copy@.len() == i,
            forall|j: int| 0 <= j < i ==> copy[j] == rows[j],
        decreases rows.len() - i,
    {
        let row = &rows[i];
        copy.push(
            CounterRow { country: row.country.clone(), city: row.city.clone(), value: row.value },
        );
        i += 1;
    }
    proof {
        assert(copy@ =~= rows@);
    }
    copy
}

fn copy_coordinates(rows: &Vec<CoordinateRow>) -> (copy: Vec<CoordinateRow>)
    ensures
        copy@ == rows@,
{
    let mut copy: Vec<CoordinateRow> = Vec::new();
    let mut i: usize = 0;
    while i < rows.len()
        invariant
            i <= rows.len(),
            copy@.len() == i,
            forall|j: int| 0 <= j < i ==> copy[j] == rows[j],
        decreases rows.len() - i,
    {
        let row = &rows[i];
        copy.push(CoordinateRow { lat: row.lat, long: row.long, airport: row.airport.clone() });
        i += 1;
    }
    proof {
        assert(copy@ =~= rows@);
    }
    copy
}

fn counter_keys_distinct(rows: &Vec<CounterRow>) -> (distinct: bool)
    ensures
        distinct == counter_rows_wf(rows@),
{
    let mut i: usize = 0;
    while i < rows.len()
        invariant
            i <= rows.len(),
            forall|a: int, b: int| 0 <= a < b < i ==> rows[a].key() != rows[b].key(),
        decreases rows.len() - i,
    {
        let mut j: usize = 0;
        while j < i
            invariant
                j <= i < rows.len(),
                forall|a: int| 0 <= a < j ==> rows[a].key() != rows[i as int].key(),
            decreases i - j,
        {
            if rows[j].country == rows[i].country && rows[j].city == rows[i].city {
                proof {
                    let entries = counter_entries(rows@);
                    assert(entries[j as int].0 == entries[i as int].0);
                }
                return false;
            }
            j += 1;
        }
        i += 1;
    }
    proof {
        let entries = counter_entries(rows@);
        assert forall|a: int, b: int| 0 <= a < b < entries.len() implies (#[trigger] entries[a]).0
            != (#[trigger] entries[b]).0 by {
            assert(rows[a].key() != rows[b].key());
        }
    }
    true
}

fn coordinate_keys_distinct(rows: &Vec<CoordinateRow>) -> (distinct: bool)
    ensures
        distinct == coordinate_rows_wf(rows@),
{
    let mut i: usize = 0;
    while i < rows.len()
        invariant
            i <= rows.len(),
            forall|a: int, b: int| 0 <= a < b < i ==> rows[a].key() != rows[b].key(),
        decreases rows.len() - i,
    {
        let mut j: usize = 0;
        while j < i
            invariant
                j <= i < rows.len(),
                forall|a: int| 0 <= a < j ==> rows[a].key() != rows[i as int].key(),
            decreases i - j,
        {
            if rows[j].lat == rows[i].lat && rows[j].long == rows[i].long {
                proof {
                    let entries = coordinate_entries(rows@);
                    assert(entries[j as int].0 == entries[i as int].0);
                }
                return false;
            }
            j += 1;
        }
        i += 1;
    }
    proof {
        let entries = coordinate_entries(rows@);
        assert forall|a: int, b: int| 0 <= a < b < entries.len() implies (#[trigger] entries[a]).0
            != (#[trigger] entries[b]).0 by {
            assert(rows[a].key() != rows[b].key());
        }
    }
    true
}

/// Whether a store in the state `storage` carries out `command`. Tables are
/// created on request and read once they exist; writes run inside a
/// transaction only, on existing tables, and a count stops at the largest
/// number that a row can hold.
pub open spec fn accepts(storage: Storage, command: Command, visit: Visit) -> bool {
    match command {
        Command::Execute(statement) => match statement {
            Statement::CreateCounters | Statement::CreateCoordinates => true,
            Statement::SelectCounters | Statement::SelectCoordinates => storage.committed.ready,
            _ => false,
        },
        Command::Begin => storage.staged is None,
        Command::ExecuteInTransaction(statement) => match storage.staged {
            Some(staged) => match statement {
                Statement::UpsertCounter | Statement::InsertCoordinate => staged.ready,
                Statement::IncrementCounter => staged.ready && !(staged.counters.dom().contains(
                    visit.counter_key(),
                ) && staged.counters[visit.counter_key()] >= u64::MAX),
                _ => false,
            },
            None => false,
        },
        Command::Commit => storage.staged is Some,
        Command::Rollback => true,
    }
}

/// The two tables as they are committed and, while a transaction is open,
/// as the transaction has staged them. Each key occurs in at most one row.
pub struct VisitStore {
    ready: bool,
    counters: Vec<CounterRow>,
    coordinates: Vec<CoordinateRow>,
    open: bool,
    staged_ready: bool,
    staged_counters: Vec<CounterRow>,
    staged_coordinates: Vec<CoordinateRow>,
}

impl View for VisitStore {
    type V = Tables;

    /// What is committed.
    closed spec fn view(&self) -> Tables {
        Tables {
            ready: self.ready,
            counters: counter_table(self.counters@),
            coordinates: coordinate_table(self.coordinates@),
        }
    }
}

impl VisitStore {
    /// Primary keys are unique in both tables, committed and staged.
    pub closed spec fn wf(&self) -> bool {
        &&& counter_rows_wf(self.counters@)
        &&& coordinate_rows_wf(self.coordinates@)
        &&& counter_rows_wf(self.staged_counters@)
        &&& coordinate_rows_wf(self.staged_coordinates@)
    }

    /// What the open transaction has staged; `None` where none is open.
    pub closed spec fn staged(&self) -> Option<Tables> {
        if self.open {
            Some(
                Tables {
                    ready: self.staged_ready,
                    counters: counter_table(self.staged_counters@),
                    coordinates: coordinate_table(self.staged_coordinates@),
                },
            )
        } else {
            None
        }
    }

    /// The committed tables together with what is staged.
    pub open spec fn storage(&self) -> Storage {
        Storage { committed: self@, staged: self.staged() }
    }

    /// A store without schema, without rows and without open transaction.
    pub fn new() -> (store: VisitStore)
        ensures
            store.wf(),
            store@ == Tables::empty(),
            store.staged() is None,
    {
        let store = VisitStore {
            ready: false,
            counters: Vec::new(),
            coordinates: Vec::new(),
            open: false,
            staged_ready: false,
            staged_counters: Vec::new(),
            staged_coordinates: Vec::new(),
        };
        proof {
            assert(counter_entries(store.counters@) =~= Seq::empty());
            assert(coordinate_entries(store.coordinates@) =~= Seq::empty());
        }
        store
    }

    /// A store that holds the given rows, with its schema in place. There
    /// is none, exactly where a key occurs in two rows of a table.
    pub fn with_rows(counters: Vec<CounterRow>, coordinates: Vec<CoordinateRow>) -> (res: Option<
        VisitStore,
    >)
        ensures
            res is Some <==> counter_rows_wf(counters@) && coordinate_rows_wf(coordinates@),
            res is Some ==> res->Some_0.wf() && res->Some_0.staged() is None && res->Some_0@ == (
            Tables {
                ready: true,
                counters: counter_table(counters@),
                coordinates: coordinate_table(coordinates@),
            }),
    {
        if !counter_keys_distinct(&counters) || !coordinate_keys_distinct(&coordinates) {
            return None;
        }
        let store = VisitStore {
            ready: true,
            counters,
            coordinates,
            open: false,
            staged_ready: false,
            staged_counters: Vec::new(),
            staged_coordinates: Vec::new(),
        };
        proof {
            assert(counter_entries(store.staged_counters@) =~= Seq::empty());
            assert(coordinate_entries(store.staged_coordinates@) =~= Seq::empty());
        }
        Some(store)
    }

    /// Creates the two tables if they are absent. Rows already stored stay
    /// as they are; this store never rejects the definition.
    pub fn ensure_schema(&mut self) -> (res: Result<(), StoreError>)
        requires
            old(self).wf(),
        ensures
            final(self).wf(),
            res is Ok,
            final(self)@ == old(self)@.ensure_schema(),
            final(self).staged() == old(self).staged(),
    {
        self.ready = true;
        Ok(())
    }

    /// Opens a transaction on what is committed. It fails, with `Write`,
    /// exactly where one is open already.
    pub fn begin(&mut self) -> (res: Result<(), StoreError>)
        requires
            old(self).wf(),
        ensures
            final(self).wf(),
            final(self)@ == old(self)@,
            res is Ok <==> old(self).staged() is None,
            res is Ok ==> final(self).staged() == Some(old(self)@),
            res is Err ==> res == Err::<(), StoreError>(StoreError::Write) && final(self).staged()
                == old(self).staged(),
    {
        if self.open {
            return Err(StoreError::Write);
        }
        self.staged_counters = copy_counters(&self.counters);
        self.staged_coordinates = copy_coordinates(&self.coordinates);
        self.staged_ready = self.ready;
        self.open = true;
        Ok(())
    }

    /// First write of a visit, inside the open transaction: a zero counter
    /// for (country, city) unless it has a row. It fails, with `Write`,
    /// exactly where no transaction is open or the schema is missing.
    pub fn upsert_counter(&mut self, country: &str, city: &str) -> (res: Result<(), StoreError>)
        requires
            old(self).wf(),
        ensures
            final(self).wf(),
            final(self)@ == old(self)@,
            res is Ok <==> old(self).staged() is Some && old(self).staged()->Some_0.ready,
            res is Ok ==> final(self).staged() == Some(
                old(self).staged()->Some_0.upsert_counter((country@, city@)),
            ),
            res is Err ==> res == Err::<(), StoreError>(StoreError::Write) && final(self).staged()
                == old(self).staged(),
    {
        if !self.open || !self.staged_ready {
            return Err(StoreError::Write);
        }
        upsert_row(&mut self.staged_counters, country, city);
        Ok(())
    }

    /// Second write of a visit, inside the open transaction: the counter of
    /// (country, city) grows by one, relative to what is staged. It fails,
    /// with `Write`, exactly where no transaction is open, the schema is
    /// missing or the count cannot grow.
    pub fn increment_counter(&mut self, country: &str, city: &str) -> (res: Result<
        (),
        StoreError,
    >)
        requires
            old(self).wf(),
        ensures
            final(self).wf(),
            final(self)@ == old(self)@,
            res is Ok <==> old(self).staged() is Some && old(self).staged()->Some_0.ready && !(
            old(self).staged()->Some_0.counters.dom().contains((country@, city@)) && old(
                self,
            ).staged()->Some_0.counters[(country@, city@)] >= u64::MAX),
            res is Ok ==> final(self).staged() == Some(
                old(self).staged()->Some_0.increment_counter((country@, city@)),
            ),
            res is Err ==> res == Err::<(), StoreError>(StoreError::Write) && final(self).staged()
                == old(self).staged(),
    {
        if !self.open || !self.staged_ready {
            return Err(StoreError::Write);
        }
        if increment_row(&mut self.staged_counters, country, city) {
            Ok(())
        } else {
            Err(StoreError::Write)
        }
    }

    /// Third write of a visit, inside the open transaction: a row for the
    /// coordinate with `airport` unless it has one. It fails, with `Write`,
    /// exactly where no transaction is open or the schema is missing.
    pub fn insert_coordinate(&mut self, lat: i32, long: i32, airport: &str) -> (res: Result<
        (),
        StoreError,
    >)
        requires
            old(self).wf(),
        ensures
            final(self).wf(),
            final(self)@ == old(self)@,
            res is Ok <==> old(self).staged() is Some && old(self).staged()->Some_0.ready,
            res is Ok ==> final(self).staged() == Some(
                old(self).staged()->Some_0.insert_coordinate((lat as int, long as int), airport@),
            ),
            res is Err ==> res == Err::<(), StoreError>(StoreError::Write) && final(self).staged()
                == old(self).staged(),
    {
        if !self.open || !self.staged_ready {
            return Err(StoreError::Write);
        }
        insert_place(&mut self.staged_coordinates, lat, long, airport);
        Ok(())
    }

    /// Makes what is staged the committed state and closes the transaction.
    /// It fails, with `Write`, exactly where none is open.
    pub fn commit(&mut self) -> (res: Result<(), StoreError>)
        requires
            old(self).wf(),
        ensures
            final(self).wf(),
            res is Ok <==> old(self).staged() is Some,
            res is Ok ==> final(self)@ == old(self).staged()->Some_0,
            res is Err ==> res == Err::<(), StoreError>(StoreError::Write) && final(self)@ == old(
                self,
            )@,
            final(self).staged() is None,
    {
        if !self.open {
            return Err(StoreError::Write);
        }
        self.counters = copy_counters(&self.staged_counters);
        self.coordinates = copy_coordinates(&self.staged_coordinates);
        self.ready = self.staged_ready;
        self.open = false;
        Ok(())
    }

    /// Abandons the open transaction, if any: nothing of it persists.
    pub fn rollback(&mut self)
        requires
            old(self).wf(),
        ensures
            final(self).wf(),
            final(self)@ == old(self)@,
            final(self).staged() is None,
    {
        self.open = false;
    }

    /// Records one visit: the counter of (country, city) grows by one, and
    /// the coordinate gets a row with `airport` unless it has one. The three
    /// writes run in one transaction: either all of it is committed or
    /// none. It fails, with `Write`, exactly where a transaction is open
    /// already, the schema is missing or the counter cannot grow.
    pub fn record_visit(
        &mut self,
        airport: &str,
        country: &str,
        city: &str,
        lat: i32,
        long: i32,
    ) -> (res: Result<(), StoreError>)
        requires
            old(self).wf(),
        ensures
            final(self).wf(),
            res is Ok <==> old(self).staged() is None && old(self)@.ready && old(self)@.counter(
                (country@, city@),
            ) < u64::MAX,
            res is Ok ==> final(self)@ == old(self)@.record_visit(
                (Visit {
                    airport: airport@,
                    country: country@,
                    city: city@,
                    lat: lat as int,
                    long: long as int,
                }),
            ),
            res is Err ==> res == Err::<(), StoreError>(StoreError::Write) && final(self)@ == old(
                self,
            )@,
            final(self).staged() == old(self).staged(),
    {
        match self.begin() {
            Ok(()) => {},
            Err(error) => {
                return Err(error);
            },
        }
        match self.upsert_counter(country, city) {
            Ok(()) => {},
            Err(error) => {
                self.rollback();
                return Err(error);
            },
        }
        match self.increment_counter(country, city) {
            Ok(()) => {},
            Err(error) => {
                self.rollback();
                return Err(error);
            },
        }
        match self.insert_coordinate(lat, long, airport) {
            Ok(()) => {},
            Err(error) => {
                self.rollback();
                return Err(error);
            },
        }
        match self.commit() {
            Ok(()) => Ok(()),
            Err(error) => {
                self.rollback();
                Err(error)
            },
        }
    }

    /// Carries out one command of a request and reports whether it
    /// succeeded. A command that the store does not accept changes nothing.
    pub fn perform(&mut self, command: Command, request: &VisitRequest) -> (ok: bool)
        requires
            old(self).wf(),
        ensures
            final(self).wf(),
            ok == accepts(old(self).storage(), command, request@),
            final(self).storage() == old(self).storage().apply(command, request@, ok),
    {
        match command {
            Command::Execute(statement) => match statement {
                Statement::CreateCounters => true,
                Statement::CreateCoordinates => self.ensure_schema().is_ok(),
                Statement::SelectCounters | Statement::SelectCoordinates => self.ready,
                _ => false,
            },
            Command::Begin => self.begin().is_ok(),
            Command::ExecuteInTransaction(statement) => match statement {
                Statement::UpsertCounter => self.upsert_counter(
                    request.country.as_str(),
                    request.city.as_str(),
                ).is_ok(),
                Statement::IncrementCounter => self.increment_counter(
                    request.country.as_str(),
                    request.city.as_str(),
                ).is_ok(),
                Statement::InsertCoordinate => self.insert_coordinate(
                    request.lat,
                    request.long,
                    request.airport.as_str(),
                ).is_ok(),
                _ => false,
            },
            Command::Commit => self.commit().is_ok(),
            Command::Rollback => {
                self.rollback();
                true
            },
        }
    }

    /// Whether a transaction is open.
    pub fn in_transaction(&self) -> (open: bool)
        ensures
            open == self.staged() is Some,
    {
        self.open
    }

    /// Every committed counter row, in no particular order: one row per
    /// key, and the rows together are the counter table. It fails, with
    /// `Read`, exactly where the schema is missing.
    pub fn list_counters(&self) -> (res: Result<Vec<CounterRow>, StoreError>)
        requires
            self.wf(),
        ensures
            res is Ok <==> self@.ready,
            res is Err ==> res == Err::<Vec<CounterRow>, StoreError>(StoreError::Read),
            res is Ok ==> counter_rows_wf(res->Ok_0@) && counter_table(res->Ok_0@)
                == self@.counters,
    {
        if !self.ready {
            return Err(StoreError::Read);
        }
        Ok(copy_counters(&self.counters))
    }

    /// Every committed coordinate row, in no particular order: one row per
    /// key, and the rows together are the coordinate table. It fails, with
    /// `Read`, exactly where the schema is missing.
    pub fn list_coordinates(&self) -> (res: Result<Vec<CoordinateRow>, StoreError>)
        requires
            self.wf(),
        ensures
            res is Ok <==> self@.ready,
            res is Err ==> res == Err::<Vec<CoordinateRow>, StoreError>(StoreError::Read),
            res is Ok ==> coordinate_rows_wf(res->Ok_0@) && coordinate_table(res->Ok_0@)
                == self@.coordinates,
    {
        if !self.ready {
            return Err(StoreError::Read);
        }
        Ok(copy_coordinates(&self.coordinates))
    }
}

} // verus!
