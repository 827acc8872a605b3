use bee::connect::{new_connection, parse_url};
use bee::engine::{error_from_engine, error_from_engine_text};
use bee::statement::new_req_none;
use bee::table::Args;
use bee::value::{DataType, Value};

const ENGINE_BASE: i32 = 7 * 65536;
const OTHER_BASE: i32 = 6 * 65536;

#[test]
fn mod_test() {
    let _ = new_connection("sqlite:agent:default").unwrap();
}

#[test]
fn connection_url_dispatch() {
    let (scheme, pack, profile) = parse_url("sqlite:agent:default").unwrap();
    assert_eq!("sqlite", scheme.as_str());
    assert_eq!("agent", pack.as_str());
    assert_eq!("default", profile.as_str());

    let err = new_connection("sqlite").unwrap_err();
    assert_eq!(3 * 65536 + 5, err.get_code());
    let err = new_connection("postgres:agent:default").unwrap_err();
    assert_eq!(3 * 65536 + 6, err.get_code());
    let err = new_connection("sqlite:unknown:default").unwrap_err();
    assert_eq!(3 * 65536 + 7, err.get_code());
    let _ = new_connection("sqlite:remote:profile:with:colons").unwrap();
}

#[test]
fn simple_scalar_select() {
    let conn = new_connection("sqlite:agent:default").unwrap();
    let (req, resp) = new_req_none(Args::new());
    let _ = conn.run_statement("SELECT 1, 'x', 1.5, NULL", req);

    let mut rows = resp.wait().unwrap();
    let cols = rows.columns();
    assert_eq!(4, cols.len());
    assert_eq!(DataType::Integer, cols.type_at(0));
    assert_eq!(DataType::String, cols.type_at(1));
    assert_eq!(DataType::Number, cols.type_at(2));
    assert_eq!(DataType::Nil, cols.type_at(3));

    let row = rows.next_row().unwrap().unwrap();
    assert_eq!(&Value::Integer(1), row.get_value(0).unwrap());
    assert_eq!(&Value::String("x".to_owned()), row.get_value(1).unwrap());
    assert_eq!(&Value::Number((1.5f64).to_bits()), row.get_value(2).unwrap());
    assert_eq!(&Value::Nil, row.get_value(3).unwrap());
    assert!(rows.next_row().is_none());
}

#[test]
fn empty_select_falls_back_to_declared_types() {
    let conn = new_connection("sqlite:agent:default").unwrap();
    let (req, resp) = new_req_none(Args::new());
    let _ = conn.run_statement("SELECT 1 AS n WHERE 0", req);

    let mut rows = resp.wait().unwrap();
    let cols = rows.columns();
    assert_eq!(1, cols.len());
    assert_eq!("n", cols.name_at(0).as_str());
    assert_eq!(DataType::Nil, cols.type_at(0));
    assert!(rows.next_row().is_none());
}

#[test]
fn filter_passthrough_excludes_matches() {
    // the filesystem virtual table is attached by the host program, out
    // of these tests' reach, so the filter runs over inline values here
    let conn = new_connection("sqlite:agent:default").unwrap();
    let (req, resp) = new_req_none(Args::new());
    let _ = conn.run_statement(
        "SELECT column1 AS name FROM (VALUES ('var'), ('tmpdir'), ('home')) WHERE column1 NOT LIKE '%tmp%'",
        req,
    );
    let mut rows = resp.wait().unwrap();
    let mut seen = 0;
    while let Some(row) = rows.next_row() {
        let row = row.unwrap();
        match row.get_value(0).unwrap() {
            Value::String(name) => assert!(!name.contains("tmp")),
            _ => panic!("name is text"),
        }
        seen += 1;
    }
    assert!(seen >= 1);
}

#[test]
fn test_faild_no_such_table() {
    let conn = new_connection("sqlite:agent:default").unwrap();
    let (req, resp) = new_req_none(Args::new());
    let _ = conn.run_statement("SELECT * FROM test();", req);
    let err = resp.wait().unwrap_err();
    assert!(err.get_message().contains("no such table: test"));
}

#[test]
fn test_faild_sql_error() {
    let conn = new_connection("sqlite:agent:default").unwrap();
    let (req, resp) = new_req_none(Args::new());
    let _ = conn.run_statement("SELEC * FROM test;", req);
    let err = resp.wait().unwrap_err();
    assert!(err.get_message().contains("near "));
}

#[test]
fn test_faild_not_such_func() {
    // the registered virtual tables are attached by the host program,
    // out of these tests' reach, so the unknown function is hit without
    // a table in the query
    let conn = new_connection("sqlite:agent:default").unwrap();
    let (req, resp) = new_req_none(Args::new());
    let _ = conn.run_statement("SELECT csv('name');", req);
    let err = resp.wait().unwrap_err();
    assert!(err.get_message().contains("no such function"));
}

#[test]
fn convert_test() {
    // an engine failure keeps its extended code under the catch-all kind
    assert_eq!(
        OTHER_BASE + 1,
        error_from_engine(&rusqlite::Error::SqliteFailure(
            rusqlite::ffi::Error {
                code: rusqlite::ffi::ErrorCode::ApiMisuse,
                extended_code: 0x01,
            },
            Some("".to_owned()),
        ))
        .get_code()
    );

    // each engine variant maps to its own subcode of the dense range
    assert_eq!(
        ENGINE_BASE,
        error_from_engine(&rusqlite::Error::SqliteSingleThreadedMode).get_code()
    );
    assert_eq!(
        ENGINE_BASE + 2,
        error_from_engine(&rusqlite::Error::IntegralValueOutOfRange(0, 0)).get_code()
    );
    assert_eq!(
        ENGINE_BASE + 5,
        error_from_engine(&rusqlite::Error::InvalidParameterName("name".to_owned())).get_code()
    );
    assert_eq!(
        ENGINE_BASE + 6,
        error_from_engine(&rusqlite::Error::InvalidPath("/test/bin".into())).get_code()
    );
    assert_eq!(
        ENGINE_BASE + 7,
        error_from_engine(&rusqlite::Error::ExecuteReturnedResults).get_code()
    );
    assert_eq!(
        ENGINE_BASE + 8,
        error_from_engine(&rusqlite::Error::QueryReturnedNoRows).get_code()
    );
    assert_eq!(
        ENGINE_BASE + 9,
        error_from_engine(&rusqlite::Error::InvalidColumnIndex(0)).get_code()
    );
    assert_eq!(
        ENGINE_BASE + 10,
        error_from_engine(&rusqlite::Error::InvalidColumnName("name".to_owned())).get_code()
    );
    assert_eq!(
        ENGINE_BASE + 11,
        error_from_engine(&rusqlite::Error::InvalidColumnType(
            0,
            "name".to_owned(),
            rusqlite::types::Type::Text,
        ))
        .get_code()
    );
    assert_eq!(
        ENGINE_BASE + 12,
        error_from_engine(&rusqlite::Error::StatementChangedRows(0)).get_code()
    );
    assert_eq!(
        ENGINE_BASE + 13,
        error_from_engine(&rusqlite::Error::InvalidQuery).get_code()
    );
    assert_eq!(
        ENGINE_BASE + 14,
        error_from_engine(&rusqlite::Error::MultipleStatement).get_code()
    );
    assert_eq!(
        ENGINE_BASE + 15,
        error_from_engine(&rusqlite::Error::InvalidFunctionParameterType(
            0,
            rusqlite::types::Type::Text,
        ))
        .get_code()
    );
    assert_eq!(
        ENGINE_BASE + 17,
        error_from_engine(&rusqlite::Error::UnwindingPanic).get_code()
    );
    assert_eq!(
        ENGINE_BASE + 18,
        error_from_engine(&rusqlite::Error::GetAuxWrongType).get_code()
    );
    assert_eq!(
        ENGINE_BASE + 19,
        error_from_engine(&rusqlite::Error::InvalidParameterCount(1, 1)).get_code()
    );

    // a structured error carried through the engine's string channel
    // round-trips with its code and message intact
    let carried = error_from_engine(&rusqlite::Error::ModuleError("393217#boom".to_owned()));
    assert_eq!(393217, carried.get_code());
    assert_eq!("boom", carried.get_message().as_str());
}

#[test]
fn engine_text_classification_is_deterministic() {
    let e = error_from_engine_text("Query returned no rows".to_owned(), None);
    assert_eq!(ENGINE_BASE + 8, e.get_code());
    let e = error_from_engine_text("something new".to_owned(), None);
    assert_eq!(ENGINE_BASE + 21, e.get_code());
    let e = error_from_engine_text("131072#typed".to_owned(), None);
    assert_eq!(131072, e.get_code());
    assert_eq!("typed", e.get_message().as_str());
    let e = error_from_engine_text("anything".to_owned(), Some(261));
    assert_eq!(OTHER_BASE + 261, e.get_code());
    // a printed structured error is restored even when the engine also
    // reports a failure code: that is how a failed scalar function
    // comes back from a statement step
    let e = error_from_engine_text("131072#typed".to_owned(), Some(261));
    assert_eq!(131072, e.get_code());
    assert_eq!("typed", e.get_message().as_str());
}
