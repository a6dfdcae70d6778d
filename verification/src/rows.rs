//! The typed rows of the two tables and their mathematical views.

use vstd::prelude::*;

verus! {

/// The natural key of a counter: country and city, as text.
pub type CounterKey = (Seq<char>, Seq<char>);

/// The natural key of a coordinate: latitude and longitude, each in units of
/// 1e-7 degrees.
pub type CoordinateKey = (int, int);

/// One row of the counter table.
#[derive(Clone, Debug, PartialEq, Eq)]
pub struct CounterRow {
    pub country: String,
    pub city: String,
    pub value: u64,
}

/// One row of the coordinate table. Latitude and longitude are fixed-point
/// decimals in units of 1e-7 degrees.
#[derive(Clone, Debug, PartialEq, Eq)]
pub struct CoordinateRow {
    pub lat: i32,
    pub long: i32,
    pub airport: String,
}

/// The rows of the counter table as key/value entries.
pub open spec fn counter_entries(rows: Seq<CounterRow>) -> Seq<(CounterKey, nat)> {
    Seq::new(rows.len(), |i: int| (rows[i].key(), rows[i].value as nat))
}

/// The rows of the coordinate table as key/value entries.
pub open spec fn coordinate_entries(rows: Seq<CoordinateRow>) -> Seq<(CoordinateKey, Seq<char>)> {
    Seq::new(rows.len(), |i: int| (rows[i].key(), rows[i].airport@))
}

impl CounterRow {
    /// The key under which the row is stored.
    pub open spec fn key(&self) -> CounterKey {
        (self.country@, self.city@)
    }

    /// Builds a row from its three columns.
    pub fn new(country: &str, city: &str, value: u64) -> (row: CounterRow)
        ensures
            row.country@ == country@,
            row.city@ == city@,
            row.value == value,
    {
        CounterRow { country: String::from_str(country), city: String::from_str(city), value }
    }
}

impl CoordinateRow {
    /// The key under which the row is stored.
    pub open spec fn key(&self) -> CoordinateKey {
        (self.lat as int, self.long as int)
    }

    /// Builds a row from its three columns.
    pub fn new(lat: i32, long: i32, airport: &str) -> (row: CoordinateRow)
        ensures
            row.lat == lat,
            row.long == long,
            row.airport@ == airport@,
    {
        CoordinateRow { lat, long, airport: String::from_str(airport) }
    }
}

} // verus!
