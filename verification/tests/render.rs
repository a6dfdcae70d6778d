use visit_store::render::counter_cells;
use visit_store::render::create_map_canvas;
use visit_store::render::decimal_text;
use visit_store::render::degrees_text;
use visit_store::render::page;
use visit_store::render::point_script;
use visit_store::render::result_to_html_table;
use visit_store::rows::CoordinateRow;
use visit_store::rows::CounterRow;

fn texts(items: &[&str]) -> Vec<String> {
    items.iter().map(|s| s.to_string()).collect()
}

#[test]
fn decimal_numerals() {
    assert_eq!(decimal_text(0), "0");
    assert_eq!(decimal_text(7), "7");
    assert_eq!(decimal_text(10), "10");
    assert_eq!(decimal_text(1234567890), "1234567890");
    assert_eq!(decimal_text(u64::MAX), "18446744073709551615");
}

#[test]
fn degrees_have_seven_fractional_digits() {
    assert_eq!(degrees_text(521_672_000), "52.1672000");
    assert_eq!(degrees_text(209_679_000), "20.9679000");
    assert_eq!(degrees_text(0), "0.0000000");
    assert_eq!(degrees_text(5), "0.0000005");
    assert_eq!(degrees_text(-5), "-0.0000005");
    assert_eq!(degrees_text(-1_800_000_000), "-180.0000000");
    assert_eq!(degrees_text(i32::MAX), "214.7483647");
    assert_eq!(degrees_text(i32::MIN), "-214.7483648");
}

#[test]
fn table_of_nothing() {
    assert_eq!(
        result_to_html_table(&vec![], &vec![]),
        "<table style=\"border: 1px solid\"></table>"
    );
}

#[test]
fn table_with_header_and_rows() {
    let columns = texts(&["country", "city", "value"]);
    let rows = vec![texts(&["\"PL\"", "\"Warsaw\"", "3"]), texts(&["\"FI\"", "\"Helsinki\"", "2"])];
    assert_eq!(
        result_to_html_table(&columns, &rows),
        "<table style=\"border: 1px solid\">\
         <th style=\"border: 1px solid\">country</th>\
         <th style=\"border: 1px solid\">city</th>\
         <th style=\"border: 1px solid\">value</th>\
         <tr style=\"border: 1px solid\"><td>\"PL\"</td><td>\"Warsaw\"</td><td>3</td></tr>\
         <tr style=\"border: 1px solid\"><td>\"FI\"</td><td>\"Helsinki\"</td><td>2</td></tr>\
         </table>"
    );
}

#[test]
fn table_with_an_empty_row() {
    assert_eq!(
        result_to_html_table(&texts(&["a"]), &vec![vec![]]),
        "<table style=\"border: 1px solid\"><th style=\"border: 1px solid\">a</th>\
         <tr style=\"border: 1px solid\"></tr></table>"
    );
}

#[test]
fn scoreboard_cells_quote_text_and_spell_numbers() {
    let rows = vec![CounterRow::new("PL", "Warsaw", 3), CounterRow::new("a\"b", "x\\y\n", 0)];
    assert_eq!(
        counter_cells(&rows),
        vec![
            texts(&["\"PL\"", "\"Warsaw\"", "3"]),
            texts(&["\"a\\\"b\"", "\"x\\\\y\\n\"", "0"])
        ]
    );
    assert_eq!(counter_cells(&vec![]), Vec::<Vec<String>>::new());
}

#[test]
fn point_script_takes_the_texts_as_they_are() {
    assert_eq!(
        point_script("1.5", "-2", "\"waw\""),
        "point = myMap.latLngToPixel(1.5, -2);\nellipse(point.x, point.y, 10, 10);\ntext(\"waw\", point.x, point.y);\n"
    );
}

#[test]
fn canvas_draws_each_row_in_order() {
    let rows = vec![
        CoordinateRow::new(521_672_000, 209_679_000, "waw"),
        CoordinateRow::new(603_183_000, 249_497_000, "hel"),
    ];
    let canvas = create_map_canvas(&rows);
    assert!(canvas.starts_with(
        "\n  <script src=\"https://cdnjs.cloudflare.com/ajax/libs/p5.js/0.5.16/p5.min.js\" type=\"text/javascript\"></script>\n"
    ));
    assert!(canvas.contains("style: \"http://{s}.tile.osm.org/{z}/{x}/{y}.png\""));
    assert!(canvas.ends_with(
        "      clear();\n      let point;\
         point = myMap.latLngToPixel(52.1672000, 20.9679000);\nellipse(point.x, point.y, 10, 10);\ntext(\"waw\", point.x, point.y);\n\
         point = myMap.latLngToPixel(60.3183000, 24.9497000);\nellipse(point.x, point.y, 10, 10);\ntext(\"hel\", point.x, point.y);\n\
         }</script>"
    ));
}

#[test]
fn canvas_without_rows_is_head_and_tail() {
    let canvas = create_map_canvas(&vec![]);
    assert!(canvas.ends_with("      clear();\n      let point;}</script>"));
    assert_eq!(canvas.matches("latLngToPixel").count(), 0);
}

#[test]
fn page_wraps_canvas_and_scoreboard() {
    assert_eq!(
        page("C", "S"),
        "\n        <body>\n        C Database powered by <a href=\"https://chiselstrike.com/\">Turso</a>.\n        <br /> Scoreboard: <br /> S\n        <footer>Map data from OpenStreetMap (https://tile.osm.org/)</footer>\n        </body>\n        "
    );
}
