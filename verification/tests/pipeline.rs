use bee::error::Error;
use bee::source::{BashRow, HostBasic, HostProbe, OSInfo, Register, StaticSource, decode_output, host_basic, os_info, register_ds, run_producer};
use bee::state::{State, ToData};
use bee::statement::{new_req, new_req_none};
use bee::table::{Args, Columns, Row};
use bee::value::{DataType, Value};

const CHANNEL_CLOSED: i32 = 6 * 65536 + 1;

fn typed_row(values: Vec<Value>) -> Row {
    let mut row = Row::new();
    for v in values {
        row.push(v);
    }
    row
}

#[test]
fn rows_emerge_in_producer_order() {
    let (mut req, resp) = new_req_none(Args::new());
    let mut cols = Columns::new();
    cols.push("n", DataType::Integer);
    let committer = req.new_commit(cols).unwrap();
    for n in 0..3 {
        let row = typed_row(vec![Value::Integer(n)]);
        committer.commit(&mut req, State::Process(row)).unwrap();
    }
    req.ok().unwrap();

    let mut rows = resp.wait().unwrap();
    for n in 0..3 {
        let row = rows.next_row().unwrap().unwrap();
        assert_eq!(&Value::Integer(n), row.get_value(0).unwrap());
    }
    assert!(rows.next_row().is_none());
    assert!(rows.next_row().is_none());
}

#[test]
fn dropped_consumer_fails_the_next_commit() {
    let (mut req, resp) = new_req_none(Args::new());
    drop(resp);
    let mut cols = Columns::new();
    cols.push("n", DataType::Integer);
    let err = req.new_commit(cols).unwrap_err();
    assert_eq!(CHANNEL_CLOSED, err.get_code());
}

#[test]
fn dropped_consumer_fails_a_started_stream() {
    let (mut req, resp) = new_req_none(Args::new());
    let mut cols = Columns::new();
    cols.push("n", DataType::Integer);
    let committer = req.new_commit(cols).unwrap();
    drop(resp);
    let row = typed_row(vec![Value::Integer(1)]);
    let err = committer.commit(&mut req, State::Process(row)).unwrap_err();
    assert_eq!(CHANNEL_CLOSED, err.get_code());
}

#[test]
fn timeout_without_events_is_io_timeout() {
    let (req, resp) = new_req(Args::new(), 50);
    let err = resp.wait().unwrap_err();
    assert_eq!(5 * 65536, err.get_code());
    drop(req);
}

#[test]
fn timeout_during_iteration_is_io_timeout() {
    let (mut req, resp) = new_req(Args::new(), 50);
    let mut cols = Columns::new();
    cols.push("n", DataType::Integer);
    let _committer = req.new_commit(cols).unwrap();
    let mut rows = resp.wait().unwrap();
    let err = rows.next_row().unwrap().unwrap_err();
    assert_eq!(5 * 65536, err.get_code());
    assert!(rows.next_row().is_none());
}

#[test]
fn type_mismatch_is_rejected_before_the_channel() {
    let (mut req, resp) = new_req_none(Args::new());
    let mut cols = Columns::new();
    cols.push("a", DataType::String);
    cols.push("b", DataType::Integer);
    let committer = req.new_commit(cols).unwrap();
    let bad = typed_row(vec![Value::Integer(10), Value::Integer(2)]);
    let err = committer.commit(&mut req, State::Process(bad)).unwrap_err();
    assert_eq!(2 * 65536, err.get_code());
    req.error(err).unwrap();

    let mut rows = resp.wait().unwrap();
    let seen = rows.next_row().unwrap().unwrap_err();
    assert_eq!(2 * 65536, seen.get_code());
    assert!(rows.next_row().is_none());
}

#[test]
fn error_before_ready_surfaces_from_wait() {
    let (mut req, resp) = new_req_none(Args::new());
    req.error(Error::internal(0, "probe died".to_owned())).unwrap();
    let err = resp.wait().unwrap_err();
    assert_eq!(4 * 65536, err.get_code());
    assert_eq!("probe died", err.get_message().as_str());
}

#[test]
fn untyped_commit_derives_schema_from_first_row() {
    let (mut req, resp) = new_req_none(Args::new());
    req.commit(vec![
        ("name".to_owned(), Value::String("a".to_owned())),
        ("age".to_owned(), Value::Integer(30)),
    ]).unwrap();
    req.commit(vec![
        ("name".to_owned(), Value::String("b".to_owned())),
        ("age".to_owned(), Value::Integer(31)),
    ]).unwrap();
    req.ok().unwrap();

    let mut rows = resp.wait().unwrap();
    let mut expect = Columns::new();
    expect.push("name", DataType::String);
    expect.push("age", DataType::Integer);
    assert_eq!(&expect, rows.columns());
    let first = rows.next_row().unwrap().unwrap();
    assert_eq!(&Value::String("a".to_owned()), first.get_value(0).unwrap());
    let second = rows.next_row().unwrap().unwrap();
    assert_eq!(&Value::Integer(31), second.get_value(1).unwrap());
    assert!(rows.next_row().is_none());
}

#[test]
fn host_basic_test() {
    let (mut req, resp) = new_req(Args::new(), 2000);
    let promise = req.head::<HostBasic>().unwrap();
    let probe = HostProbe {
        host_name: "worker-1".to_owned(),
        cpu_core: num_cpus::get() as i64,
        uptime: 3600,
        memory: 8 * 1024 * 1024 * 1024,
        brand_output: " common processor model\n".to_owned(),
    };
    host_basic(&promise, &mut req, probe).unwrap();
    req.ok().unwrap();

    let mut rows = resp.wait().unwrap();
    let mut expect = Columns::new();
    expect.push("host_name", DataType::String);
    expect.push("cpu_core", DataType::Integer);
    expect.push("cpu_model", DataType::String);
    expect.push("uptime", DataType::Integer);
    expect.push("memory", DataType::Integer);
    assert_eq!(&expect, rows.columns());

    let mut index = 0;
    while let Some(row) = rows.next_row() {
        let row = row.unwrap();
        match row.get_value(1).unwrap() {
            Value::Integer(cores) => assert!(*cores >= 1),
            _ => panic!("cpu_core is an integer"),
        }
        match row.get_value(4).unwrap() {
            Value::Integer(memory) => assert!(*memory >= 1),
            _ => panic!("memory is an integer"),
        }
        assert_eq!(
            &Value::String("common processor model".to_owned()),
            row.get_value(2).unwrap()
        );
        index += 1;
    }
    assert!(index > 0);
}

#[test]
fn os_info_test() {
    let (mut req, resp) = new_req(Args::new(), 2000);
    let promise = req.head::<OSInfo>().unwrap();
    let probe = OSInfo {
        os_type: "Linux".to_owned(),
        version: "6.1".to_owned(),
        host_name: "worker-1".to_owned(),
    };
    os_info(&promise, &mut req, probe).unwrap();
    req.ok().unwrap();

    let mut rows = resp.wait().unwrap();
    let mut expect = Columns::new();
    expect.push("os_type", DataType::String);
    expect.push("version", DataType::String);
    expect.push("host_name", DataType::String);
    assert_eq!(&expect, rows.columns());

    let mut index = 0;
    while let Some(row) = rows.next_row() {
        let _ = row.unwrap();
        index += 1;
    }
    assert!(index > 0);
}

#[test]
fn decode_output_selects_marked_lines() {
    let (mut req, resp) = new_req_none(Args::new());
    let promise = req.head::<BashRow>().unwrap();
    let buffer = "noise\n#mark\n\nfirst\nsecond\nmark#\nafter\n";
    decode_output("#mark", "mark#", buffer, &promise, &mut req).unwrap();
    req.ok().unwrap();

    let mut rows = resp.wait().unwrap();
    let first = rows.next_row().unwrap().unwrap();
    assert_eq!(&Value::String("first".to_owned()), first.get_value(0).unwrap());
    assert_eq!(&Value::Integer(0), first.get_value(1).unwrap());
    let second = rows.next_row().unwrap().unwrap();
    assert_eq!(&Value::String("second".to_owned()), second.get_value(0).unwrap());
    assert_eq!(&Value::Integer(1), second.get_value(1).unwrap());
    assert!(rows.next_row().is_none());
}

#[test]
fn decode_output_skips_repeated_start_marks() {
    let (mut req, resp) = new_req_none(Args::new());
    let promise = req.head::<BashRow>().unwrap();
    let buffer = "#mark\nfirst\n#mark\nsecond\nmark#\n";
    decode_output("#mark", "mark#", buffer, &promise, &mut req).unwrap();
    req.ok().unwrap();

    let mut rows = resp.wait().unwrap();
    let first = rows.next_row().unwrap().unwrap();
    assert_eq!(&Value::String("first".to_owned()), first.get_value(0).unwrap());
    let second = rows.next_row().unwrap().unwrap();
    assert_eq!(&Value::String("second".to_owned()), second.get_value(0).unwrap());
    assert_eq!(&Value::Integer(1), second.get_value(1).unwrap());
    assert!(rows.next_row().is_none());
}

#[test]
fn decode_output_without_start_mark_commits_nothing() {
    let (mut req, resp) = new_req_none(Args::new());
    let promise = req.head::<BashRow>().unwrap();
    decode_output("#mark", "mark#", "a\nb\n", &promise, &mut req).unwrap();
    req.ok().unwrap();
    let mut rows = resp.wait().unwrap();
    assert!(rows.next_row().is_none());
}

#[test]
fn registry_is_one_shot_per_name() {
    let mut reg = Register::new();
    register_ds(&mut reg).unwrap();
    assert_eq!(10, reg.len());
    assert!(reg.find("host_basic").is_some());
    assert!(reg.find("filesystem").is_some());
    assert!(reg.find("missing").is_none());
    let dup = register_ds(&mut reg).unwrap_err();
    assert_eq!(3 * 65536 + 4, dup.get_code());
}

#[test]
fn typed_rows_match_their_schema() {
    let record = HostBasic {
        host_name: "h".to_owned(),
        cpu_core: 4,
        cpu_model: "m".to_owned(),
        uptime: 1,
        memory: 2,
    };
    let cols = <HostBasic as ToData>::columns();
    let row = record.to_row();
    assert!(bee::table::valid_row(&cols, &row).is_ok());
}

#[test]
fn promise_streams_are_well_formed() {
    // a full typed run: one schema, rows, one terminal, in order
    let (mut req, resp) = new_req_none(Args::new());
    let promise = req.head::<OSInfo>().unwrap();
    for i in 0..2 {
        let probe = OSInfo {
            os_type: format!("os-{}", i),
            version: "1".to_owned(),
            host_name: "h".to_owned(),
        };
        promise.commit(&mut req, probe).unwrap();
    }
    req.ok().unwrap();

    let mut rows = resp.wait().unwrap();
    let mut count = 0;
    while let Some(row) = rows.next_row() {
        assert!(row.is_ok());
        count += 1;
    }
    assert_eq!(2, count);
}

#[test]
fn run_producer_completes_every_stream() {
    // a producer run always ends the stream with exactly one terminal
    let mut cols = Columns::new();
    cols.push("n", DataType::Integer);
    let mut rows_in = Vec::new();
    rows_in.push(typed_row(vec![Value::Integer(5)]));
    rows_in.push(typed_row(vec![Value::Integer(6)]));
    let source = StaticSource {
        source_name: "static".to_owned(),
        columns: cols,
        args: Columns::new(),
        rows: rows_in,
    };
    let (req, resp) = new_req_none(Args::new());
    let _ = run_producer(&source, req);

    let mut rows = resp.wait().unwrap();
    let mut count = 0;
    while let Some(row) = rows.next_row() {
        let _ = row.unwrap();
        count += 1;
    }
    assert_eq!(2, count);
    assert!(rows.next_row().is_none());
}

#[test]
fn run_producer_rejects_rows_off_schema() {
    // a pre-gathered row that does not validate stops the stream with
    // the invalid-type error
    let mut cols = Columns::new();
    cols.push("n", DataType::Integer);
    let mut rows_in = Vec::new();
    rows_in.push(typed_row(vec![Value::String("five".to_owned())]));
    let source = StaticSource {
        source_name: "static".to_owned(),
        columns: cols,
        args: Columns::new(),
        rows: rows_in,
    };
    let (req, resp) = new_req_none(Args::new());
    let _ = run_producer(&source, req);

    let mut rows = resp.wait().unwrap();
    let err = rows.next_row().unwrap().unwrap_err();
    assert_eq!(2 * 65536, err.get_code());
    assert!(rows.next_row().is_none());
}
