use bee::error::Error;
use bee::state::State;
use bee::table::{Args, Columns, Row, valid_row};
use bee::value::{DataType, EngineValue, Value};

fn sample_columns() -> Columns {
    let mut cols = Columns::new();
    cols.push("Name", DataType::String);
    cols.push("Age", DataType::Number);
    cols
}

#[test]
fn state_test() {
    let state = State::from(sample_columns());
    assert!(state.is_ready());

    let mut row = Row::new();
    row.push(Value::String("Name".to_owned()));
    row.push(Value::Number((20.0f64).to_bits()));
    row.push(Value::Integer(10));
    row.push(Value::Boolean(false));
    row.push(Value::Bytes(vec![0x01, 0x02]));
    row.push(Value::Nil);
    let state = State::from(row);
    assert!(state.is_process());
    assert!(!state.is_ready());

    let state = State::ok();
    assert!(state.is_ok());

    let mut name_col = Columns::new();
    name_col.push("name", DataType::String);
    let rs: Result<State, Error> = Ok(State::Ready(name_col));
    let mut name_col = Columns::new();
    name_col.push("name", DataType::String);
    assert_eq!(State::Ready(name_col), State::from(rs));

    let rs: Result<State, Error> = Err(Error::index_param("name"));
    let state = State::from(rs);
    assert_eq!(State::Fail(Error::index_param("name")), state);

    assert!(!state.is_ok());
    assert!(state.is_err());
}

#[test]
fn test_valid_row_len() {
    let mut cols = Columns::new();
    cols.push("name", DataType::String);
    cols.push("age", DataType::Integer);
    let mut row = Row::new();
    row.push(Value::String("He".to_owned()));
    let err = valid_row(&cols, &row).unwrap_err();
    assert_eq!(1 * 65536, err.get_code());
    assert!(err.get_message().starts_with("invalid row : the cols len is"));
    assert_eq!(
        "invalid row : the cols len is 2 but row len is 1",
        err.get_message().as_str()
    );
}

#[test]
fn test_valid_row_type() {
    let mut cols = Columns::new();
    cols.push("name", DataType::String);
    cols.push("age", DataType::Integer);
    let mut row = Row::new();
    row.push(Value::String("He".to_owned()));
    row.push(Value::Number((10.02f64).to_bits()));
    let err = valid_row(&cols, &row).unwrap_err();
    assert_eq!(2 * 65536, err.get_code());
    assert!(err.get_message().starts_with("invalid row from"));
    assert_eq!(
        "invalid row from the col[age] is Integer but the row[age] is Number",
        err.get_message().as_str()
    );
}

#[test]
fn valid_row_accepts_nil_anywhere() {
    let mut cols = Columns::new();
    cols.push("name", DataType::String);
    cols.push("age", DataType::Integer);
    let mut row = Row::new();
    row.push(Value::Nil);
    row.push(Value::Integer(3));
    assert!(valid_row(&cols, &row).is_ok());
}

#[test]
fn engine_round_trip_keeps_values() {
    let vals = vec![
        Value::String("x".to_owned()),
        Value::Integer(-7),
        Value::Number((1.5f64).to_bits()),
        Value::Bytes(vec![9, 8]),
        Value::Nil,
    ];
    for v in vals {
        let copy = v.duplicate();
        let back = Value::from(v.to_engine());
        assert_eq!(copy, back);
    }
}

#[test]
fn engine_round_trip_collapses_booleans() {
    let back = Value::from(Value::Boolean(true).to_engine());
    assert_eq!(Value::Integer(1), back);
    let back = Value::from(Value::Boolean(false).to_engine());
    assert_eq!(Value::Integer(0), back);
    match Value::Boolean(true).to_engine() {
        EngineValue::Integer(i) => assert_eq!(1, i),
        _ => panic!("a boolean marshals to an engine integer"),
    }
}

#[test]
fn error_text_round_trip() {
    let cases = vec![
        Error::index_param("arg 3 of 2"),
        Error::invalid_type("bad row".to_owned()),
        Error::invalid(5, "bad url".to_owned()),
        Error::internal(0, "probe died".to_owned()),
        Error::io_timeout("1s elapsed".to_owned()),
        Error::other(77, "hash # inside # message".to_owned()),
        Error::engine(11, "".to_owned()),
    ];
    for e in cases {
        let text = e.to_text();
        let back = Error::parse(text.as_str()).unwrap();
        assert_eq!(e.get_code(), back.get_code());
        assert_eq!(e.get_message(), back.get_message());
    }
}

#[test]
fn error_parse_rejects_unmarked_text() {
    let err = Error::parse("no such table: test").unwrap_err();
    assert_eq!(3 * 65536, err.get_code());
    assert_eq!("no such table: test", err.get_message().as_str());
    assert!(Error::parse("#missing code").is_err());
    assert!(Error::parse("123no separator").is_err());
}

#[test]
fn error_codes_are_distinct_per_kind() {
    assert_eq!(65536, Error::index_param("a").get_code());
    assert_eq!(131072, Error::invalid_type("a".to_owned()).get_code());
    assert_eq!(196608 + 2, Error::invalid(2, "a".to_owned()).get_code());
    assert_eq!(262144, Error::internal(0, "a".to_owned()).get_code());
    assert_eq!(327680, Error::io_timeout("a".to_owned()).get_code());
    assert_eq!(393216 + 9, Error::other(9, "a".to_owned()).get_code());
    assert_eq!(458752 + 3, Error::engine(3, "a".to_owned()).get_code());
}

#[test]
fn args_positional_access() {
    let mut args = Args::new();
    args.push(Value::Integer(1));
    args.push(Value::String("b".to_owned()));
    assert_eq!(2, args.len());
    assert_eq!(&Value::Integer(1), args.get(0).unwrap());
    assert_eq!(65536, args.get(5).unwrap_err().get_code());
}

#[test]
fn cpu_brand_trims_probe_output() {
    assert_eq!("AMD EPYC 7K62", bee::source::cpu_brand(" AMD EPYC 7K62\n").as_str());
    assert_eq!("", bee::source::cpu_brand(" \t\r\n").as_str());
}

#[test]
fn shell_script_wraps_markers() {
    let s = bee::source::shell_script("#m", "m#", "ls");
    assert_eq!("echo '#m';echo '';ls;echo '';echo 'm#';", s.as_str());
}

#[test]
fn buffer_finished_needs_the_end_mark_on_a_line() {
    assert!(bee::source::buffer_finished("out\nm#", "m#"));
    assert!(!bee::source::buffer_finished("out m#", "m#"));
    assert!(!bee::source::buffer_finished("m#", "m#"));
    assert!(bee::source::buffer_finished("a\nm# trailing", "m#"));
}
