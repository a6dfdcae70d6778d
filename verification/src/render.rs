//! Rendering of the two listings: the scoreboard as an HTML table and the
//! visited airports as a script that draws them on a map.

use crate::rows::CoordinateRow;
use crate::rows::CounterRow;
use vstd::prelude::*;

verus! {

/// The compact JSON encoding of a text, quotes and escapes included.
pub uninterp spec fn json_string(text: Seq<char>) -> Seq<char>;

/// Encodes a text as a JSON string by `Display` of `serde_json::Value` on
/// its `String` variant. The contract only names the outcome: the encoding
/// is serde_json's, and nothing is proved of it.
#[verifier::external_body]
fn json_text(text: &str) -> (quoted: String)
    ensures
        quoted@ == json_string(text@),
{
    serde_json::Value::String(text.to_owned()).to_string()
}

/// The numeral of one decimal digit.
pub open spec fn spec_digit(d: nat) -> Seq<char> {
    if d == 0 {
        "0"@
    } else if d == 1 {
        "1"@
    } else if d == 2 {
        "2"@
    } else if d == 3 {
        "3"@
    } else if d == 4 {
        "4"@
    } else if d == 5 {
        "5"@
    } else if d == 6 {
        "6"@
    } else if d == 7 {
        "7"@
    } else if d == 8 {
        "8"@
    } else {
        "9"@
    }
}

/// The decimal numeral of `n`, without leading zeros.
pub open spec fn spec_decimal(n: nat) -> Seq<char>
    decreases n,
{
    if n < 10 {
        spec_digit(n)
    } else {
        spec_decimal(n / 10) + spec_digit(n % 10)
    }
}

/// The last `width` decimal digits of `n`, with leading zeros.
pub open spec fn spec_padded(n: nat, width: nat) -> Seq<char>
    decreases width,
{
    if width == 0 {
        Seq::empty()
    } else {
        spec_padded(n / 10, (width - 1) as nat) + spec_digit(n % 10)
    }
}

/// A coordinate of `units` times 1e-7 degrees as a decimal numeral with
/// seven fractional digits.
pub open spec fn spec_degrees(units: int) -> Seq<char> {
    let magnitude = if units < 0 {
        (-units) as nat
    } else {
        units as nat
    };
    let sign = if units < 0 {
        "-"@
    } else {
        ""@
    };
    sign + spec_decimal(magnitude / 10_000_000) + "."@ + spec_padded(magnitude % 10_000_000, 7)
}

/// The header cells of a table, one per column.
pub open spec fn spec_header_cells(columns: Seq<String>) -> Seq<char>
    decreases columns.len(),
{
    if columns.len() == 0 {
        Seq::empty()
    } else {
        spec_header_cells(columns.drop_last()) + "<th style=\"border: 1px solid\">"@
            + columns.last()@ + "</th>"@
    }
}

/// The data cells of one row.
pub open spec fn spec_data_cells(cells: Seq<String>) -> Seq<char>
    decreases cells.len(),
{
    if cells.len() == 0 {
        Seq::empty()
    } else {
        spec_data_cells(cells.drop_last()) + "<td>"@ + cells.last()@ + "</td>"@
    }
}

/// The rows of a table, each with its cells.
pub open spec fn spec_table_rows(rows: Seq<Vec<String>>) -> Seq<char>
    decreases rows.len(),
{
    if rows.len() == 0 {
        Seq::empty()
    } else {
        spec_table_rows(rows.drop_last()) + "<tr style=\"border: 1px solid\">"@ + spec_data_cells(
            rows.last()@,
        ) + "</tr>"@
    }
}

/// A whole table: header cells, then rows.
pub open spec fn spec_html_table(columns: Seq<String>, rows: Seq<Vec<String>>) -> Seq<char> {
    "<table style=\"border: 1px solid\">"@ + spec_header_cells(columns) + spec_table_rows(rows)
        + "</table>"@
}

/// The script lines that draw one airport, from the three texts as they
/// are to appear in the script.
pub open spec fn spec_point_script(lat: Seq<char>, long: Seq<char>, airport: Seq<char>) -> Seq<
    char,
> {
    "point = myMap.latLngToPixel("@ + lat + ", "@ + long
        + ");\nellipse(point.x, point.y, 10, 10);\ntext("@ + airport + ", point.x, point.y);\n"@
}

/// The script lines for all rows, in order.
pub open spec fn spec_point_scripts(rows: Seq<CoordinateRow>) -> Seq<char>
    decreases rows.len(),
{
    if rows.len() == 0 {
        Seq::empty()
    } else {
        spec_point_scripts(rows.drop_last()) + spec_point_script(
            spec_degrees(rows.last().lat as int),
            spec_degrees(rows.last().long as int),
            json_string(rows.last().airport@),
        )
    }
}

/// What opens the map script, up to the first point.
pub open spec fn spec_canvas_head() -> Seq<char> {
    r#"
  <script src="https://cdnjs.cloudflare.com/ajax/libs/p5.js/0.5.16/p5.min.js" type="text/javascript"></script>
  <script src="https://unpkg.com/mappa-mundi/dist/mappa.js" type="text/javascript"></script>
    <script>
    let myMap;
    let canvas;
    const mappa = new Mappa('Leaflet');
    const options = {
      lat: 0,
      lng: 0,
      zoom: 2,
      style: "http://{s}.tile.osm.org/{z}/{x}/{y}.png"
    }

    function setup(){
      canvas = createCanvas(640,480);
      myMap = mappa.tileMap(options); 
      myMap.overlay(canvas) 
    
      fill(200, 100, 100);
      myMap.onChange(drawPoint);
    }

    function draw(){
    }

    function drawPoint(){
      clear();
      let point;"#@
}

/// The whole map script.
pub open spec fn spec_map_canvas(rows: Seq<CoordinateRow>) -> Seq<char> {
    spec_canvas_head() + spec_point_scripts(rows) + "}</script>"@
}

/// The scoreboard's cells for the counter rows: country and city as JSON
/// strings, the count as a decimal numeral.
pub open spec fn counter_cells_match(rows: Seq<CounterRow>, cells: Seq<Vec<String>>) -> bool {
    &&& cells.len() == rows.len()
    &&& forall|i: int|
        0 <= i < rows.len() ==> {
            &&& (#[trigger] cells[i])@.len() == 3
            &&& cells[i]@[0]@ == json_string(rows[i].country@)
            &&& cells[i]@[1]@ == json_string(rows[i].city@)
            &&& cells[i]@[2]@ == spec_decimal(rows[i].value as nat)
        }
}

/// The page around the map script and the scoreboard.
pub open spec fn spec_page(canvas: Seq<char>, scoreboard: Seq<char>) -> Seq<char> {
    "\n        <body>\n        "@ + canvas
        + " Database powered by <a href=\"https://chiselstrike.com/\">Turso</a>.\n        <br /> Scoreboard: <br /> "@
        + scoreboard
        + "\n        <footer>Map data from OpenStreetMap (https://tile.osm.org/)</footer>\n        </body>\n        "@
}

fn digit_text(d: u64) -> (text: &'static str)
    requires
        d < 10,
    ensures
        text@ == spec_digit(d as nat),
{
    if d == 0 {
        "0"
    } else if d == 1 {
        "1"
    } else if d == 2 {
        "2"
    } else if d == 3 {
        "3"
    } else if d == 4 {
        "4"
    } else if d == 5 {
        "5"
    } else if d == 6 {
        "6"
    } else if d == 7 {
        "7"
    } else if d == 8 {
        "8"
    } else {
        "9"
    }
}

/// The decimal numeral of `n`.
pub fn decimal_text(n: u64) -> (text: String)
    ensures
        text@ == spec_decimal(n as nat),
    decreases n,
{
    if n < 10 {
        String::from_str(digit_text(n))
    } else {
        decimal_text(n / 10).concat(digit_text(n % 10))
    }
}

fn padded_text(n: u64, width: u32) -> (text: String)
    ensures
        text@ == spec_padded(n as nat, width as nat),
    decreases width,
{
    if width == 0 {
        String::new()
    } else {
        padded_text(n / 10, width - 1).concat(digit_text(n % 10))
    }
}

/// A coordinate of `units` times 1e-7 degrees as a decimal numeral with
/// seven fractional digits.
pub fn degrees_text(units: i32) -> (text: String)
    ensures
        text@ == spec_degrees(units as int),
{
    let wide: i64 = units as i64;
    let magnitude: u64 = if wide < 0 {
        (-wide) as u64
    } else {
        wide as u64
    };
    let sign = if wide < 0 {
        "-"
    } else {
        ""
    };
    let whole = decimal_text(magnitude / 10_000_000);
    let fraction = padded_text(magnitude % 10_000_000, 7);
    String::from_str(sign).concat(whole.as_str()).concat(".").concat(fraction.as_str())
}

fn header_cells(columns: &Vec<String>) -> (html: String)
    ensures
        html@ == spec_header_cells(columns@),
{
    let mut html = String::new();
    let mut i: usize = 0;
    while i < columns.len()
        invariant
            i <= columns.len(),
            html@ == spec_header_cells(columns@.take(i as int)),
        decreases columns.len() - i,
    {
        proof {
            assert(columns@.take(i + 1).drop_last() =~= columns@.take(i as int));
        }
        html.append("<th style=\"border: 1px solid\">");
        html.append(columns[i].as_str());
        html.append("</th>");
        i += 1;
    }
    proof {
        assert(columns@.take(i as int) =~= columns@);
    }
    html
}

fn data_cells(cells: &Vec<String>) -> (html: String)
    ensures
        html@ == spec_data_cells(cells@),
{
    let mut html = String::new();
    let mut i: usize = 0;
    while i < cells.len()
        invariant
            i <= cells.len(),
            html@ == spec_data_cells(cells@.take(i as int)),
        decreases cells.len() - i,
    {
        proof {
            assert(cells@.take(i + 1).drop_last() =~= cells@.take(i as int));
        }
        html.append("<td>");
        html.append(cells[i].as_str());
        html.append("</td>");
        i += 1;
    }
    proof {
        assert(cells@.take(i as int) =~= cells@);
    }
    html
}

fn table_rows(rows: &Vec<Vec<String>>) -> (html: String)
    ensures
        html@ == spec_table_rows(rows@),
{
    let mut html = String::new();
    let mut i: usize = 0;
    while i < rows.len()
        invariant
            i <= rows.len(),
            html@ == spec_table_rows(rows@.take(i as int)),
        decreases rows.len() - i,
    {
        proof {
            assert(rows@.take(i + 1).drop_last() =~= rows@.take(i as int));
        }
        let cells = data_cells(&rows[i]);
        html.append("<tr style=\"border: 1px solid\">");
        html.append(cells.as_str());
        html.append("</tr>");
        i += 1;
    }
    proof {
        assert(rows@.take(i as int) =~= rows@);
    }
    html
}

/// Renders a query result as an HTML table: one header cell per column,
/// then one row per result row with one cell per value, each cell holding
/// the given text as it is.
pub fn result_to_html_table(columns: &Vec<String>, rows: &Vec<Vec<String>>) -> (html: String)
    ensures
        html@ == spec_html_table(columns@, rows@),
{
    let head = header_cells(columns);
    let body = table_rows(rows);
    String::from_str("<table style=\"border: 1px solid\">").concat(head.as_str()).concat(
        body.as_str(),
    ).concat("</table>")
}

/// The cells of the scoreboard: for each counter row its country and city
/// as JSON strings and its count as a decimal numeral.
pub fn counter_cells(rows: &Vec<CounterRow>) -> (cells: Vec<Vec<String>>)
    ensures
        counter_cells_match(rows@, cells@),
{
    let mut cells: Vec<Vec<String>> = Vec::new();
    let mut i: usize = 0;
    while i < rows.len()
        invariant
            i <= rows.len(),
            counter_cells_match(rows@.take(i as int), cells@),
        decreases rows.len() - i,
    {
        let mut line: Vec<String> = Vec::new();
        line.push(json_text(rows[i].country.as_str()));
        line.push(json_text(rows[i].city.as_str()));
        line.push(decimal_text(rows[i].value));
        cells.push(line);
        i += 1;
    }
    proof {
        assert(rows@.take(i as int) =~= rows@);
    }
    cells
}

/// The script lines that draw one airport. The three texts go into the
/// script as they are.
pub fn point_script(lat: &str, long: &str, airport: &str) -> (script: String)
    ensures
        script@ == spec_point_script(lat@, long@, airport@),
{
    String::from_str("point = myMap.latLngToPixel(").concat(lat).concat(", ").concat(long).concat(
        ");\nellipse(point.x, point.y, 10, 10);\ntext(",
    ).concat(airport).concat(", point.x, point.y);\n")
}

/// Renders the script that loads a map and draws every coordinate row on
/// it: the position as decimal degrees, the airport code as a JSON string.
pub fn create_map_canvas(rows: &Vec<CoordinateRow>) -> (canvas: String)
    ensures
        canvas@ == spec_map_canvas(rows@),
{
    let mut points = String::new();
    let mut i: usize = 0;
    while i < rows.len()
        invariant
            i <= rows.len(),
            points@ == spec_point_scripts(rows@.take(i as int)),
        decreases rows.len() - i,
    {
        proof {
            assert(rows@.take(i + 1).drop_last() =~= rows@.take(i as int));
        }
        let lat = degrees_text(rows[i].lat);
        let long = degrees_text(rows[i].long);
        let airport = json_text(rows[i].airport.as_str());
        let script = point_script(lat.as_str(), long.as_str(), airport.as_str());
        points.append(script.as_str());
        i += 1;
    }
    proof {
        assert(rows@.take(i as int) =~= rows@);
    }
    let head = r#"
  <script src="https://cdnjs.cloudflare.com/ajax/libs/p5.js/0.5.16/p5.min.js" type="text/javascript"></script>
  <script src="https://unpkg.com/mappa-mundi/dist/mappa.js" type="text/javascript"></script>
    <script>
    let myMap;
    let canvas;
    const mappa = new Mappa('Leaflet');
    const options = {
      lat: 0,
      lng: 0,
      zoom: 2,
      style: "http://{s}.tile.osm.org/{z}/{x}/{y}.png"
    }

    function setup(){
      canvas = createCanvas(640,480);
      myMap = mappa.tileMap(options); 
      myMap.overlay(canvas) 
    
      fill(200, 100, 100);
      myMap.onChange(drawPoint);
    }

    function draw(){
    }

    function drawPoint(){
      clear();
      let point;"#;
    String::from_str(head).concat(points.as_str()).concat("}</script>")
}

/// Puts the map script and the scoreboard into the page.
pub fn page(canvas: &str, scoreboard: &str) -> (html: String)
    ensures
        html@ == spec_page(canvas@, scoreboard@),
{
    String::from_str("\n        <body>\n        ").concat(canvas).concat(
        " Database powered by <a href=\"https://chiselstrike.com/\">Turso</a>.\n        <br /> Scoreboard: <br /> ",
    ).concat(scoreboard).concat(
        "\n        <footer>Map data from OpenStreetMap (https://tile.osm.org/)</footer>\n        </body>\n        ",
    )
}

} // verus!
