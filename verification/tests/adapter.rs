use clickhouse_fdw::cell::{Cell, FdwError, WireValue, literal_to_query_text, to_host_cell, to_wire_value};
use clickhouse_fdw::deparse::{Qual, deparse};
use clickhouse_fdw::fdw::{ClickHouseFdw, Row};

fn qual(field: &str, op: &str, value: Cell) -> Qual {
    Qual::new(field.to_string(), op.to_string(), value)
}

fn strings(items: &[&str]) -> Vec<String> {
    items.iter().map(|s| s.to_string()).collect()
}

#[test]
fn deparse_without_predicates() {
    let quals: Vec<Qual> = Vec::new();
    let columns = strings(&["name", "age"]);
    let sql = deparse(&quals, &columns, "people");
    assert_eq!(sql, "SELECT name, age FROM people");
}

#[test]
fn deparse_single_predicate() {
    let quals = vec![qual("age", ">", Cell::Int(30))];
    let columns = strings(&["name", "age"]);
    let sql = deparse(&quals, &columns, "people");
    assert_eq!(sql, "SELECT name, age FROM people WHERE age > 30");
}

#[test]
fn deparse_conjunction_count() {
    let quals = vec![
        qual("age", ">", Cell::Int(30)),
        qual("name", "=", Cell::Str("bob".to_string())),
        qual("active", "=", Cell::Bool(true)),
    ];
    let columns = strings(&["name"]);
    let sql = deparse(&quals, &columns, "people");
    assert_eq!(sql.matches("AND").count(), 2);
    assert_eq!(
        sql,
        "SELECT name FROM people WHERE age > 30 AND name = 'bob' AND active = true"
    );
    let single = vec![qual("age", ">", Cell::Int(30))];
    let one = deparse(&single, &columns, "people");
    assert_eq!(one.matches("AND").count(), 0);
}

#[test]
fn cell_round_trips() {
    let cells = vec![
        Cell::Bool(true),
        Cell::Bool(false),
        Cell::Int(-42),
        Cell::Int(i64::MAX),
        Cell::Float(2.5f64.to_bits()),
        Cell::Float((-0.0f64).to_bits()),
        Cell::Str(String::new()),
        Cell::Str("héllo 'quoted'".to_string()),
    ];
    for cell in cells {
        let wire = to_wire_value(&cell);
        let back = to_host_cell(&wire).expect("supported wire type");
        assert_eq!(back, cell);
    }
}

#[test]
fn bool_wire_convention() {
    assert_eq!(to_wire_value(&Cell::Bool(true)), WireValue::UInt8(1));
    assert_eq!(to_wire_value(&Cell::Bool(false)), WireValue::UInt8(0));
    // any nonzero unsigned byte reads back as true
    assert_eq!(
        to_host_cell(&WireValue::UInt8(7)).unwrap(),
        Cell::Bool(true)
    );
}

fn wire_row(cells: Vec<(&str, WireValue)>) -> Vec<(String, WireValue)> {
    cells.into_iter().map(|(n, w)| (n.to_string(), w)).collect()
}

#[test]
fn remote_row_decodes() {
    let mut fdw = ClickHouseFdw::new(true);
    let rows = vec![wire_row(vec![
        ("col0", WireValue::UInt8(1)),
        ("col1", WireValue::Float64(2.5f64.to_bits())),
    ])];
    let (count, width) = fdw.load_scan_result(rows, 2);
    assert_eq!((count, width), (1, 16));
    fdw.begin_scan();
    let row = fdw.iter_scan().unwrap().unwrap();
    assert_eq!(row.len(), 2);
    assert_eq!(row.col(0).as_str(), "col0");
    assert_eq!(row.cell(0), &Some(Cell::Bool(true)));
    assert_eq!(row.col(1).as_str(), "col1");
    assert_eq!(row.cell(1), &Some(Cell::Float(2.5f64.to_bits())));
}

#[test]
fn scan_cursor_protocol() {
    let mut fdw = ClickHouseFdw::new(true);
    let query = fdw.plan_scan(
        &Vec::new(),
        &strings(&["a"]),
        &"t".to_string(),
        &"a".to_string(),
    );
    assert_eq!(query.unwrap(), "SELECT a FROM t");
    let rows = vec![
        wire_row(vec![("a", WireValue::Int64(1))]),
        wire_row(vec![("a", WireValue::Int64(2))]),
    ];
    let (count, _) = fdw.load_scan_result(rows.clone(), 1);
    assert_eq!(count, 2);
    fdw.begin_scan();
    let first = fdw.iter_scan().unwrap().unwrap();
    assert_eq!(first.cell(0), &Some(Cell::Int(1)));
    let second = fdw.iter_scan().unwrap().unwrap();
    assert_eq!(second.cell(0), &Some(Cell::Int(2)));
    // end of data is a signal, not an error, and it repeats
    assert!(fdw.iter_scan().unwrap().is_none());
    assert!(fdw.iter_scan().unwrap().is_none());
    // ending the scan and re-sizing resets the cursor to the start
    fdw.end_scan();
    assert!(fdw.iter_scan().unwrap().is_none());
    fdw.load_scan_result(rows, 1);
    fdw.begin_scan();
    let again = fdw.iter_scan().unwrap().unwrap();
    assert_eq!(again.cell(0), &Some(Cell::Int(1)));
}

#[test]
fn unsupported_type_aborts_scan() {
    let mut fdw = ClickHouseFdw::new(true);
    let rows = vec![
        wire_row(vec![("a", WireValue::Int64(1))]),
        wire_row(vec![("a", WireValue::Int64(2))]),
        wire_row(vec![
            ("a", WireValue::Int64(3)),
            ("b", WireValue::Other("Date".to_string())),
        ]),
    ];
    fdw.load_scan_result(rows, 2);
    fdw.begin_scan();
    // every prior row is delivered unchanged
    assert_eq!(fdw.iter_scan().unwrap().unwrap().cell(0), &Some(Cell::Int(1)));
    assert_eq!(fdw.iter_scan().unwrap().unwrap().cell(0), &Some(Cell::Int(2)));
    // then exactly one unsupported-type error, no partial row
    let err = fdw.iter_scan().unwrap_err();
    assert_eq!(err, FdwError::UnsupportedType("Date".to_string()));
    assert_eq!(err.message(), "data type Date is not supported");
    // and the remainder of the scan is end of data, not more errors
    assert!(fdw.iter_scan().unwrap().is_none());
    assert!(fdw.iter_scan().unwrap().is_none());
}

fn sample_row() -> Row {
    let mut row = Row::new();
    row.push("id".to_string(), Some(Cell::Int(1)));
    row.push("name".to_string(), None);
    row.push("age".to_string(), Some(Cell::Int(3)));
    row
}

#[test]
fn insert_omits_absent_cells() {
    let mut fdw = ClickHouseFdw::new(true);
    fdw.begin_modify(&"people".to_string(), &"id".to_string());
    assert_eq!(fdw.table_name().as_str(), "people");
    let batch = fdw.insert(&sample_row()).unwrap();
    let names: Vec<&str> = batch.iter().map(|(n, _)| n.as_str()).collect();
    assert_eq!(names, vec!["id", "age"]);
    assert!(!names.contains(&"name"));
    assert_eq!(batch[0].1, WireValue::Int64(1));
    assert_eq!(batch[1].1, WireValue::Int64(3));
}

#[test]
fn update_assigns_null_to_absent_cells() {
    let mut fdw = ClickHouseFdw::new(true);
    fdw.begin_modify(&"people".to_string(), &"id".to_string());
    let sql = fdw.update(&Cell::Int(1), &sample_row()).unwrap();
    assert_eq!(
        sql,
        "ALTER TABLE people UPDATE name = NULL, age = 3 WHERE id = 1"
    );
    assert!(sql.contains("name = NULL"));
    // the row-identifier column itself is never assigned
    assert!(!sql.contains("id = 1,"));
}

#[test]
fn delete_binds_identifier() {
    let mut fdw = ClickHouseFdw::new(true);
    fdw.begin_modify(&"orders".to_string(), &"id".to_string());
    let sql = fdw.delete(&Cell::Int(42)).unwrap();
    assert_eq!(sql, "ALTER TABLE orders DELETE WHERE id = 42");
}

#[test]
fn end_modify_clears_binding() {
    let mut fdw = ClickHouseFdw::new(true);
    fdw.begin_modify(&"orders".to_string(), &"id".to_string());
    fdw.end_modify();
    assert_eq!(fdw.table_name().as_str(), "");
}

#[test]
fn string_literals_are_escaped() {
    let cell = Cell::Str("O'Brien \\ co".to_string());
    assert_eq!(literal_to_query_text(&cell), "'O\\'Brien \\\\ co'");
    let mut fdw = ClickHouseFdw::new(true);
    fdw.begin_modify(&"t".to_string(), &"id".to_string());
    let sql = fdw.delete(&Cell::Str("x'; DROP TABLE t --".to_string())).unwrap();
    assert_eq!(sql, "ALTER TABLE t DELETE WHERE id = 'x\\'; DROP TABLE t --'");
}

#[test]
fn numeric_literals() {
    assert_eq!(literal_to_query_text(&Cell::Int(0)), "0");
    assert_eq!(literal_to_query_text(&Cell::Int(-7)), "-7");
    assert_eq!(
        literal_to_query_text(&Cell::Int(i64::MIN)),
        "-9223372036854775808"
    );
    assert_eq!(
        literal_to_query_text(&Cell::Int(i64::MAX)),
        "9223372036854775807"
    );
    let bits = 2.5f64.to_bits();
    assert_eq!(
        literal_to_query_text(&Cell::Float(bits)),
        format!("reinterpretAsFloat64({})", bits)
    );
    assert_eq!(literal_to_query_text(&Cell::Bool(false)), "false");
}

#[test]
fn disconnected_adapter_degrades() {
    let mut fdw = ClickHouseFdw::new(false);
    assert!(!fdw.is_connected());
    let query = fdw.plan_scan(
        &Vec::new(),
        &strings(&["a"]),
        &"t".to_string(),
        &"id".to_string(),
    );
    assert!(query.is_none());
    assert!(fdw.insert(&sample_row()).is_none());
    assert!(fdw.update(&Cell::Int(1), &sample_row()).is_none());
    assert!(fdw.delete(&Cell::Int(1)).is_none());
}

#[test]
fn unsupported_wire_type_error_value() {
    let err = to_host_cell(&WireValue::Other("UUID".to_string())).unwrap_err();
    assert_eq!(err, FdwError::UnsupportedType("UUID".to_string()));
    assert_eq!(err.message(), "data type UUID is not supported");
}
