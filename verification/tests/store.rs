use visit_store::handler::scoreboard_header;
use visit_store::handler::serve;
use visit_store::rows::CoordinateRow;
use visit_store::rows::CounterRow;
use visit_store::store::StoreError;
use visit_store::store::VisitStore;

const WAW: (i32, i32) = (521_672_000, 209_679_000);
const HEL: (i32, i32) = (603_183_000, 249_497_000);

fn ready_store() -> VisitStore {
    let mut db = VisitStore::new();
    assert_eq!(db.ensure_schema(), Ok(()));
    db
}

fn value_of(db: &VisitStore, country: &str, city: &str) -> Option<u64> {
    let rows = db.list_counters().unwrap();
    let found: Vec<&CounterRow> =
        rows.iter().filter(|r| r.country == country && r.city == city).collect();
    assert!(found.len() <= 1);
    found.first().map(|r| r.value)
}

#[test]
fn test_counter_updated() {
    let mut db = VisitStore::new();

    let payloads = [
        ("waw", "PL", "Warsaw", WAW),
        ("waw", "PL", "Warsaw", WAW),
        ("waw", "PL", "Warsaw", WAW),
        ("hel", "FI", "Helsinki", HEL),
        ("hel", "FI", "Helsinki", HEL),
    ];

    for p in payloads {
        serve(p.0, p.1, p.2, p.3 .0, p.3 .1, &mut db).unwrap();
    }

    let columns = scoreboard_header();
    let rows = db.list_counters().unwrap();

    assert_eq!(columns, vec!["country", "city", "value"]);
    for row in rows {
        match row.city.as_str() {
            "Warsaw" => assert_eq!(row.value, 3),
            "Helsinki" => assert_eq!(row.value, 2),
            _ => panic!("Unknown city: {:?}", row),
        }
    }
}

#[test]
fn three_and_two_visits_give_two_counters_and_two_coordinates() {
    let mut db = ready_store();
    for _ in 0..3 {
        assert_eq!(db.record_visit("waw", "PL", "Warsaw", WAW.0, WAW.1), Ok(()));
    }
    for _ in 0..2 {
        assert_eq!(db.record_visit("hel", "FI", "Helsinki", HEL.0, HEL.1), Ok(()));
    }
    let mut counters = db.list_counters().unwrap();
    counters.sort_by(|a, b| a.country.cmp(&b.country));
    assert_eq!(
        counters,
        vec![CounterRow::new("FI", "Helsinki", 2), CounterRow::new("PL", "Warsaw", 3)]
    );
    let mut coordinates = db.list_coordinates().unwrap();
    coordinates.sort_by(|a, b| a.lat.cmp(&b.lat));
    assert_eq!(
        coordinates,
        vec![
            CoordinateRow::new(WAW.0, WAW.1, "waw"),
            CoordinateRow::new(HEL.0, HEL.1, "hel")
        ]
    );
}

#[test]
fn first_airport_survives_at_one_coordinate() {
    let mut db = ready_store();
    assert_eq!(db.record_visit("waw", "PL", "Warsaw", WAW.0, WAW.1), Ok(()));
    assert_eq!(db.record_visit("wmi", "PL", "Warsaw", WAW.0, WAW.1), Ok(()));
    assert_eq!(
        db.list_coordinates().unwrap(),
        vec![CoordinateRow::new(WAW.0, WAW.1, "waw")]
    );
    assert_eq!(value_of(&db, "PL", "Warsaw"), Some(2));
}

#[test]
fn n_visits_to_one_key_count_n() {
    let mut db = ready_store();
    for n in 1..=25u64 {
        assert_eq!(db.record_visit("waw", "PL", "Warsaw", n as i32, 0), Ok(()));
        assert_eq!(value_of(&db, "PL", "Warsaw"), Some(n));
    }
    assert_eq!(db.list_counters().unwrap().len(), 1);
    assert_eq!(db.list_coordinates().unwrap().len(), 25);
}

#[test]
fn n_visits_from_one_coordinate_keep_one_row() {
    let mut db = ready_store();
    let airports = ["waw", "wmi", "lcj", "waw", "krk"];
    for (i, airport) in airports.iter().enumerate() {
        let city = format!("city{}", i);
        assert_eq!(db.record_visit(airport, "PL", &city, WAW.0, WAW.1), Ok(()));
    }
    assert_eq!(
        db.list_coordinates().unwrap(),
        vec![CoordinateRow::new(WAW.0, WAW.1, "waw")]
    );
    assert_eq!(db.list_counters().unwrap().len(), 5);
}

#[test]
fn visits_to_one_key_leave_the_other_alone() {
    let mut db = ready_store();
    assert_eq!(db.record_visit("hel", "FI", "Helsinki", HEL.0, HEL.1), Ok(()));
    for _ in 0..4 {
        assert_eq!(db.record_visit("waw", "PL", "Warsaw", WAW.0, WAW.1), Ok(()));
        assert_eq!(value_of(&db, "FI", "Helsinki"), Some(1));
    }
    assert_eq!(value_of(&db, "PL", "Warsaw"), Some(4));
    assert_eq!(value_of(&db, "PL", "Helsinki"), None);
}

#[test]
fn key_is_country_and_city_together() {
    let mut db = ready_store();
    assert_eq!(db.record_visit("a", "PL", "Warsaw", 1, 1), Ok(()));
    assert_eq!(db.record_visit("a", "US", "Warsaw", 1, 1), Ok(()));
    assert_eq!(db.record_visit("a", "PL", "", 1, 1), Ok(()));
    assert_eq!(db.record_visit("a", "", "", 1, 1), Ok(()));
    assert_eq!(value_of(&db, "PL", "Warsaw"), Some(1));
    assert_eq!(value_of(&db, "US", "Warsaw"), Some(1));
    assert_eq!(value_of(&db, "PL", ""), Some(1));
    assert_eq!(value_of(&db, "", ""), Some(1));
}

#[test]
fn coordinate_key_is_latitude_and_longitude_together() {
    let mut db = ready_store();
    assert_eq!(db.record_visit("a", "PL", "Warsaw", 1, 2), Ok(()));
    assert_eq!(db.record_visit("b", "PL", "Warsaw", 2, 1), Ok(()));
    assert_eq!(db.record_visit("c", "PL", "Warsaw", 1, 1), Ok(()));
    assert_eq!(db.record_visit("d", "PL", "Warsaw", -1, 2), Ok(()));
    assert_eq!(db.list_coordinates().unwrap().len(), 4);
}

#[test]
fn write_without_schema_fails_and_leaves_nothing() {
    let mut db = VisitStore::new();
    assert_eq!(
        db.record_visit("waw", "PL", "Warsaw", WAW.0, WAW.1),
        Err(StoreError::Write)
    );
    assert_eq!(db.ensure_schema(), Ok(()));
    assert_eq!(db.list_counters().unwrap(), vec![]);
    assert_eq!(db.list_coordinates().unwrap(), vec![]);
}

#[test]
fn reads_without_schema_fail() {
    let db = VisitStore::new();
    assert_eq!(db.list_counters(), Err(StoreError::Read));
    assert_eq!(db.list_coordinates(), Err(StoreError::Read));
}

#[test]
fn ensuring_the_schema_twice_keeps_the_rows() {
    let mut db = ready_store();
    assert_eq!(db.record_visit("waw", "PL", "Warsaw", WAW.0, WAW.1), Ok(()));
    let counters = db.list_counters().unwrap();
    let coordinates = db.list_coordinates().unwrap();
    assert_eq!(db.ensure_schema(), Ok(()));
    assert_eq!(db.ensure_schema(), Ok(()));
    assert_eq!(db.list_counters().unwrap(), counters);
    assert_eq!(db.list_coordinates().unwrap(), coordinates);
}

#[test]
fn empty_store_lists_nothing() {
    let db = ready_store();
    assert_eq!(db.list_counters(), Ok(vec![]));
    assert_eq!(db.list_coordinates(), Ok(vec![]));
}

#[test]
fn serve_renders_the_page_of_the_first_visit() {
    let mut db = VisitStore::new();
    let html = serve("waw", "PL", "Warsaw", WAW.0, WAW.1, &mut db).unwrap();
    assert!(html.starts_with("\n        <body>\n        \n  <script src="));
    assert!(html.contains(
        "point = myMap.latLngToPixel(52.1672000, 20.9679000);\nellipse(point.x, point.y, 10, 10);\ntext(\"waw\", point.x, point.y);\n}</script> Database powered by"
    ));
    assert!(html.contains(
        "<br /> Scoreboard: <br /> <table style=\"border: 1px solid\"><th style=\"border: 1px solid\">country</th><th style=\"border: 1px solid\">city</th><th style=\"border: 1px solid\">value</th><tr style=\"border: 1px solid\"><td>\"PL\"</td><td>\"Warsaw\"</td><td>1</td></tr></table>\n        <footer>"
    ));
    assert!(html.ends_with("</footer>\n        </body>\n        "));
}

#[test]
fn a_rolled_back_transaction_leaves_nothing() {
    let mut db = ready_store();
    assert_eq!(db.record_visit("hel", "FI", "Helsinki", HEL.0, HEL.1), Ok(()));
    assert_eq!(db.begin(), Ok(()));
    assert_eq!(db.upsert_counter("PL", "Warsaw"), Ok(()));
    assert_eq!(db.increment_counter("PL", "Warsaw"), Ok(()));
    assert_eq!(db.increment_counter("FI", "Helsinki"), Ok(()));
    db.rollback();
    assert!(!db.in_transaction());
    assert_eq!(db.list_counters().unwrap(), vec![CounterRow::new("FI", "Helsinki", 1)]);
    assert_eq!(
        db.list_coordinates().unwrap(),
        vec![CoordinateRow::new(HEL.0, HEL.1, "hel")]
    );
}

#[test]
fn a_rollback_after_the_coordinate_keeps_the_counter_back_too() {
    let mut db = ready_store();
    assert_eq!(db.begin(), Ok(()));
    assert_eq!(db.upsert_counter("PL", "Warsaw"), Ok(()));
    assert_eq!(db.increment_counter("PL", "Warsaw"), Ok(()));
    assert_eq!(db.insert_coordinate(WAW.0, WAW.1, "waw"), Ok(()));
    db.rollback();
    assert_eq!(db.list_counters().unwrap(), vec![]);
    assert_eq!(db.list_coordinates().unwrap(), vec![]);
}

#[test]
fn a_committed_transaction_shows_all_three_writes() {
    let mut db = ready_store();
    assert_eq!(db.begin(), Ok(()));
    assert!(db.in_transaction());
    assert_eq!(db.upsert_counter("PL", "Warsaw"), Ok(()));
    assert_eq!(db.increment_counter("PL", "Warsaw"), Ok(()));
    assert_eq!(db.insert_coordinate(WAW.0, WAW.1, "waw"), Ok(()));
    assert_eq!(db.list_counters().unwrap(), vec![]);
    assert_eq!(db.list_coordinates().unwrap(), vec![]);
    assert_eq!(db.commit(), Ok(()));
    assert!(!db.in_transaction());
    assert_eq!(db.list_counters().unwrap(), vec![CounterRow::new("PL", "Warsaw", 1)]);
    assert_eq!(
        db.list_coordinates().unwrap(),
        vec![CoordinateRow::new(WAW.0, WAW.1, "waw")]
    );
}

#[test]
fn upsert_starts_a_counter_at_zero_and_keeps_an_existing_one() {
    let mut db = ready_store();
    assert_eq!(db.begin(), Ok(()));
    assert_eq!(db.upsert_counter("PL", "Warsaw"), Ok(()));
    assert_eq!(db.commit(), Ok(()));
    assert_eq!(db.list_counters().unwrap(), vec![CounterRow::new("PL", "Warsaw", 0)]);
    assert_eq!(db.record_visit("waw", "PL", "Warsaw", WAW.0, WAW.1), Ok(()));
    assert_eq!(db.begin(), Ok(()));
    assert_eq!(db.upsert_counter("PL", "Warsaw"), Ok(()));
    assert_eq!(db.commit(), Ok(()));
    assert_eq!(db.list_counters().unwrap(), vec![CounterRow::new("PL", "Warsaw", 1)]);
}

#[test]
fn increment_without_a_row_changes_nothing() {
    let mut db = ready_store();
    assert_eq!(db.begin(), Ok(()));
    assert_eq!(db.increment_counter("PL", "Warsaw"), Ok(()));
    assert_eq!(db.commit(), Ok(()));
    assert_eq!(db.list_counters().unwrap(), vec![]);
}

#[test]
fn writes_need_an_open_transaction() {
    let mut db = ready_store();
    assert_eq!(db.upsert_counter("PL", "Warsaw"), Err(StoreError::Write));
    assert_eq!(db.increment_counter("PL", "Warsaw"), Err(StoreError::Write));
    assert_eq!(db.insert_coordinate(1, 2, "waw"), Err(StoreError::Write));
    assert_eq!(db.commit(), Err(StoreError::Write));
    assert_eq!(db.list_counters().unwrap(), vec![]);
    assert_eq!(db.list_coordinates().unwrap(), vec![]);
}

#[test]
fn writes_need_the_schema() {
    let mut db = VisitStore::new();
    assert_eq!(db.begin(), Ok(()));
    assert_eq!(db.upsert_counter("PL", "Warsaw"), Err(StoreError::Write));
    assert_eq!(db.increment_counter("PL", "Warsaw"), Err(StoreError::Write));
    assert_eq!(db.insert_coordinate(1, 2, "waw"), Err(StoreError::Write));
    db.rollback();
}

#[test]
fn a_second_begin_fails_and_keeps_the_transaction() {
    let mut db = ready_store();
    assert_eq!(db.begin(), Ok(()));
    assert_eq!(db.upsert_counter("PL", "Warsaw"), Ok(()));
    assert_eq!(db.begin(), Err(StoreError::Write));
    assert!(db.in_transaction());
    assert_eq!(db.commit(), Ok(()));
    assert_eq!(db.list_counters().unwrap(), vec![CounterRow::new("PL", "Warsaw", 0)]);
}

#[test]
fn recording_while_a_transaction_is_open_fails_and_keeps_it() {
    let mut db = ready_store();
    assert_eq!(db.begin(), Ok(()));
    assert_eq!(
        db.record_visit("waw", "PL", "Warsaw", WAW.0, WAW.1),
        Err(StoreError::Write)
    );
    assert!(db.in_transaction());
    assert_eq!(
        serve("waw", "PL", "Warsaw", WAW.0, WAW.1, &mut db),
        Err(StoreError::Write)
    );
    assert!(db.in_transaction());
    db.rollback();
    assert_eq!(db.list_counters().unwrap(), vec![]);
}

#[test]
fn a_store_is_built_from_rows_with_unique_keys() {
    let db = VisitStore::with_rows(
        vec![CounterRow::new("PL", "Warsaw", 3), CounterRow::new("FI", "Helsinki", 2)],
        vec![CoordinateRow::new(WAW.0, WAW.1, "waw")],
    )
    .unwrap();
    assert!(!db.in_transaction());
    assert_eq!(value_of(&db, "PL", "Warsaw"), Some(3));
    assert_eq!(value_of(&db, "FI", "Helsinki"), Some(2));
    assert_eq!(
        db.list_coordinates().unwrap(),
        vec![CoordinateRow::new(WAW.0, WAW.1, "waw")]
    );
}

#[test]
fn rows_with_a_repeated_key_make_no_store() {
    assert!(VisitStore::with_rows(
        vec![CounterRow::new("PL", "Warsaw", 3), CounterRow::new("PL", "Warsaw", 4)],
        vec![]
    )
    .is_none());
    assert!(VisitStore::with_rows(
        vec![],
        vec![
            CoordinateRow::new(1, 2, "waw"),
            CoordinateRow::new(2, 1, "hel"),
            CoordinateRow::new(1, 2, "wmi")
        ]
    )
    .is_none());
    assert!(VisitStore::with_rows(
        vec![CounterRow::new("PL", "Warsaw", 3), CounterRow::new("PL", "Krakow", 3)],
        vec![CoordinateRow::new(1, 2, "waw"), CoordinateRow::new(1, 3, "waw")]
    )
    .is_some());
}

#[test]
fn a_full_counter_fails_the_visit_and_keeps_the_coordinate_out() {
    let mut db =
        VisitStore::with_rows(vec![CounterRow::new("PL", "Warsaw", u64::MAX)], vec![]).unwrap();
    assert_eq!(
        db.record_visit("waw", "PL", "Warsaw", WAW.0, WAW.1),
        Err(StoreError::Write)
    );
    assert!(!db.in_transaction());
    assert_eq!(value_of(&db, "PL", "Warsaw"), Some(u64::MAX));
    assert_eq!(db.list_coordinates().unwrap(), vec![]);
    assert_eq!(
        serve("waw", "PL", "Warsaw", WAW.0, WAW.1, &mut db),
        Err(StoreError::Write)
    );
    assert_eq!(value_of(&db, "PL", "Warsaw"), Some(u64::MAX));
    assert_eq!(db.list_coordinates().unwrap(), vec![]);
    assert_eq!(db.record_visit("hel", "FI", "Helsinki", HEL.0, HEL.1), Ok(()));
    assert_eq!(value_of(&db, "FI", "Helsinki"), Some(1));
}

#[test]
fn a_counter_one_below_full_takes_its_last_visit() {
    let mut db =
        VisitStore::with_rows(vec![CounterRow::new("PL", "Warsaw", u64::MAX - 1)], vec![])
            .unwrap();
    assert_eq!(db.record_visit("waw", "PL", "Warsaw", WAW.0, WAW.1), Ok(()));
    assert_eq!(value_of(&db, "PL", "Warsaw"), Some(u64::MAX));
    assert_eq!(db.list_coordinates().unwrap().len(), 1);
}
