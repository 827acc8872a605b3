//! The SQL engine bridge: preparing a statement, pulling its rows, and
//! publishing them as one stream; deterministic recovery of structured
//! errors carried through the engine's string error channel; and the
//! value marshalling of the scalar-function path.
//!
//! Top-level schema discovery: the engine names output columns up front
//! but leaves expression types undeclared, so the bridge peeks the first
//! row and derives each column type from its value; with no rows it falls
//! back to the declared SQL types under a fixed mapping.
use vstd::prelude::*;
use rusqlite::Error as SqliteError;
use rusqlite::Row as SqliteRow;
use rusqlite::Rows as SqliteRows;
use rusqlite::Statement as SqliteStatement;
use rusqlite::Connection as SqliteConnection;
use crate::error::{Error, spec_code, BASE_ENGINE, BASE_OTHER};
use crate::request::{Request, channel_closed_code};
use crate::state::{State, StateModel};
use crate::table::{Args, Columns, Row, spec_row_valid};
use crate::text::chars_vec;
use crate::value::{DataType, EngineValue, Value, ValueModel, spec_from_engine, spec_to_engine, spec_type_of};

verus! {

#[verifier::external_type_specification]
#[verifier::external_body]
pub struct ExConnection(SqliteConnection);

#[verifier::external_type_specification]
#[verifier::external_body]
pub struct ExStatement<'conn>(SqliteStatement<'conn>);

#[verifier::external_type_specification]
#[verifier::external_body]
pub struct ExRows<'stmt>(SqliteRows<'stmt>);

#[verifier::external_type_specification]
#[verifier::external_body]
pub struct ExRow<'stmt>(SqliteRow<'stmt>);

#[verifier::external_type_specification]
#[verifier::external_body]
pub struct ExEngineError(SqliteError);

/// Relies on `rusqlite::Connection::open_in_memory_with_flags`: a fresh
/// in-memory engine handle, read-only, without its own mutex, with URI
/// parsing on.
#[verifier::external_body]
pub fn engine_open() -> (r: Result<SqliteConnection, SqliteError>) {
    rusqlite::Connection::open_in_memory_with_flags(
        rusqlite::OpenFlags::SQLITE_OPEN_READ_ONLY | rusqlite::OpenFlags::SQLITE_OPEN_NO_MUTEX
            | rusqlite::OpenFlags::SQLITE_OPEN_MEMORY | rusqlite::OpenFlags::SQLITE_OPEN_URI,
    )
}

/// Relies on `Connection::set_prepared_statement_cache_capacity`: each
/// statement is one-shot, so the cache is disabled.
#[verifier::external_body]
pub fn engine_set_cache_capacity(conn: &SqliteConnection, capacity: usize) {
    conn.set_prepared_statement_cache_capacity(capacity)
}

/// Relies on `Connection::prepare`: compiles one SQL statement.
#[verifier::external_body]
pub fn engine_prepare<'c>(conn: &'c SqliteConnection, sql: &str) -> (r: Result<
    SqliteStatement<'c>,
    SqliteError,
>) {
    conn.prepare(sql)
}

/// Relies on `Statement::column_count`: how many output columns the
/// prepared statement declares.
#[verifier::external_body]
pub fn stmt_column_count(stmt: &SqliteStatement) -> (r: usize) {
    stmt.column_count()
}

/// Relies on `Statement::column_name`: the declared name of one output
/// column.
#[verifier::external_body]
pub fn stmt_column_name(stmt: &SqliteStatement, i: usize) -> (r: Result<
    String,
    SqliteError,
>) {
    match stmt.column_name(i) {
        Ok(s) => Ok(s.to_owned()),
        Err(e) => Err(e),
    }
}

/// Relies on `Statement::columns` and `Column::decl_type`: the declared
/// SQL type of one output column, absent for computed expressions.
#[verifier::external_body]
pub fn stmt_column_decl(stmt: &SqliteStatement, i: usize) -> (r: Option<String>) {
    stmt.columns().get(i).and_then(|c| c.decl_type().map(|s| s.to_owned()))
}

/// Relies on `Statement::query`: begins pulling the statement's rows.
#[verifier::external_body]
pub fn stmt_query<'s>(stmt: &'s mut SqliteStatement) -> (r: Result<
    SqliteRows<'s>,
    SqliteError,
>) {
    stmt.query([])
}

/// Relies on `Rows::next`: the next row of the cursor, `None` at its end.
#[verifier::external_body]
pub fn rows_next<'a, 'stmt>(rows: &'a mut SqliteRows<'stmt>) -> (r: Result<
    Option<&'a SqliteRow<'stmt>>,
    SqliteError,
>) {
    rows.next()
}

/// Relies on `Row::as_ref` to the owning statement and `column_count`:
/// how many values the row holds.
#[verifier::external_body]
pub fn row_count(row: &SqliteRow) -> (r: usize) {
    row.as_ref().column_count()
}

/// Relies on `Row::get_ref`: one stored value, moved into the engine
/// value form; stored text that is not UTF-8 is a conversion error.
#[verifier::external_body]
pub fn row_get(row: &SqliteRow, i: usize) -> (r: Result<EngineValue, SqliteError>) {
    match row.get_ref(i) {
        Ok(rusqlite::types::ValueRef::Null) => Ok(EngineValue::Null),
        Ok(rusqlite::types::ValueRef::Integer(v)) => Ok(EngineValue::Integer(v)),
        Ok(rusqlite::types::ValueRef::Real(v)) => Ok(EngineValue::Real(v.to_bits())),
        Ok(rusqlite::types::ValueRef::Text(t)) => match std::str::from_utf8(t) {
            Ok(s) => Ok(EngineValue::Text(s.to_owned())),
            Err(e) => Err(SqliteError::Utf8Error(i, e)),
        },
        Ok(rusqlite::types::ValueRef::Blob(b)) => Ok(EngineValue::Blob(b.to_vec())),
        Err(e) => Err(e),
    }
}

/// Relies on the engine error's `Display`: its printed form, which for a
/// wrapped module error is exactly the string the bridge stored in it.
#[verifier::external_body]
pub fn engine_error_text(e: &SqliteError) -> (r: String) {
    format!("{}", e)
}

/// Relies on the engine error's `SqliteFailure` variant: the extended
/// result code when the engine itself failed, and nothing otherwise.
#[verifier::external_body]
pub fn engine_failure_code(e: &SqliteError) -> (r: Option<i32>) {
    match e {
        SqliteError::SqliteFailure(c, _) => Some(c.extended_code),
        _ => None,
    }
}

/// Whether the text begins with the given prefix.
pub open spec fn spec_starts_with(s: Seq<char>, p: Seq<char>) -> bool {
    p.len() <= s.len() && s.take(p.len() as int) == p
}

/// Whether the character vector begins with the given prefix.
pub fn starts_with(v: &Vec<char>, p: &str) -> (r: bool)
    ensures
        r == spec_starts_with(v@, p@),
{
    let pv = chars_vec(p);
    if pv.len() > v.len() {
        return false;
    }
    let mut i: usize = 0;
    while i < pv.len()
        invariant
            i <= pv@.len(),
            pv@.len() <= v@.len(),
            pv@ == p@,
            forall|j: int| 0 <= j < i ==> v@[j] == pv@[j],
        decreases pv@.len() - i,
    {
        if v[i] != pv[i] {
            proof {
                assert(v@.take(p@.len() as int)[i as int] != p@[i as int]);
            }
            return false;
        }
        i = i + 1;
    }
    proof {
        assert(v@.take(p@.len() as int) =~= p@);
    }
    true
}

/// The subcode of the dense engine range assigned to an engine message,
/// by its printed prefix; unrecognized messages get the catch-all
/// subcode.
pub open spec fn spec_classify(s: Seq<char>) -> int {
    if spec_starts_with(s, "SQLite was compiled"@) {
        0
    } else if spec_starts_with(s, "Conversion error from type"@) {
        1
    } else if spec_starts_with(s, "Integer "@) {
        2
    } else if spec_starts_with(s, "invalid utf-8"@) {
        3
    } else if spec_starts_with(s, "nul byte"@) {
        4
    } else if spec_starts_with(s, "Invalid parameter name"@) {
        5
    } else if spec_starts_with(s, "Invalid path"@) {
        6
    } else if spec_starts_with(s, "Execute returned results"@) {
        7
    } else if spec_starts_with(s, "Query returned no rows"@) {
        8
    } else if spec_starts_with(s, "Invalid column index"@) {
        9
    } else if spec_starts_with(s, "Invalid column name"@) {
        10
    } else if spec_starts_with(s, "Invalid column type"@) {
        11
    } else if spec_starts_with(s, "Query changed"@) {
        12
    } else if spec_starts_with(s, "Query is not read-only"@) {
        13
    } else if spec_starts_with(s, "Multiple statements provided"@) {
        14
    } else if spec_starts_with(s, "Invalid function parameter type"@) {
        15
    } else if spec_starts_with(s, "Invalid filter parameter type"@) {
        16
    } else if spec_starts_with(s, "unwinding panic"@) {
        17
    } else if spec_starts_with(s, "get_aux called with wrong type"@) {
        18
    } else if spec_starts_with(s, "Wrong number of parameters"@) {
        19
    } else if spec_starts_with(s, "Query returned more than one row"@) {
        20
    } else {
        21
    }
}

/// The engine-range subcode of an engine message, by its printed prefix.
pub fn classify_engine_text(v: &Vec<char>) -> (r: i32)
    ensures
        r == spec_classify(v@),
        0 <= r <= 21,
{
    if starts_with(v, "SQLite was compiled") {
        0
    } else if starts_with(v, "Conversion error from type") {
        1
    } else if starts_with(v, "Integer ") {
        2
    } else if starts_with(v, "invalid utf-8") {
        3
    } else if starts_with(v, "nul byte") {
        4
    } else if starts_with(v, "Invalid parameter name") {
        5
    } else if starts_with(v, "Invalid path") {
        6
    } else if starts_with(v, "Execute returned results") {
        7
    } else if starts_with(v, "Query returned no rows") {
        8
    } else if starts_with(v, "Invalid column index") {
        9
    } else if starts_with(v, "Invalid column name") {
        10
    } else if starts_with(v, "Invalid column type") {
        11
    } else if starts_with(v, "Query changed") {
        12
    } else if starts_with(v, "Query is not read-only") {
        13
    } else if starts_with(v, "Multiple statements provided") {
        14
    } else if starts_with(v, "Invalid function parameter type") {
        15
    } else if starts_with(v, "Invalid filter parameter type") {
        16
    } else if starts_with(v, "unwinding panic") {
        17
    } else if starts_with(v, "get_aux called with wrong type") {
        18
    } else if starts_with(v, "Wrong number of parameters") {
        19
    } else if starts_with(v, "Query returned more than one row") {
        20
    } else {
        21
    }
}

/// The structured error recovered from an engine error's printed text
/// and its extended failure code. A parseable printed error is restored
/// exactly first — that is how a structured error carried through the
/// engine's own error channel (a failed scalar function, a module error)
/// comes back. Only when parsing fails does the stable mapping apply: an
/// engine failure keeps its extended code under the catch-all kind, and
/// anything else gets its subcode of the dense engine range by message
/// prefix.
pub open spec fn spec_error_from_engine_text(
    text: Seq<char>,
    failure: Option<i32>,
) -> crate::error::ErrorModel {
    match crate::error::spec_parse(text) {
        Some(m) => m,
        None => match failure {
            Some(x) => crate::error::ErrorModel {
                code: spec_code(
                    BASE_OTHER as int,
                    if 0 <= x < 65536 {
                        x as int
                    } else {
                        0
                    },
                ),
                message: text,
            },
            None => crate::error::ErrorModel {
                code: spec_code(BASE_ENGINE as int, spec_classify(text)),
                message: text,
            },
        },
    }
}

/// Recover a structured error from an engine error's printed text and
/// extended failure code, deterministically.
pub fn error_from_engine_text(text: String, failure: Option<i32>) -> (r: Error)
    ensures
        r@ == spec_error_from_engine_text(text@, failure),
        r.wf(),
{
    match Error::parse(text.as_str()) {
        Ok(e) => e,
        Err(_) => match failure {
            Some(x) => Error::other(x, text),
            None => {
                let v = chars_vec(text.as_str());
                let sub = classify_engine_text(&v);
                Error::engine(sub, text)
            },
        },
    }
}

/// Recover a structured error from an engine error.
pub fn error_from_engine(e: &SqliteError) -> (r: Error)
    ensures
        r.wf(),
{
    let text = engine_error_text(e);
    let failure = engine_failure_code(e);
    error_from_engine_text(text, failure)
}

/// The values of one engine row, left to right.
pub fn engine_row_values(row: &SqliteRow) -> (r: Result<Vec<EngineValue>, Error>)
    ensures
        r matches Err(e) ==> e.wf(),
{
    let n = row_count(row);
    let mut vals: Vec<EngineValue> = Vec::new();
    let mut i: usize = 0;
    while i < n
        invariant
            i <= n,
        decreases n - i,
    {
        match row_get(row, i) {
            Ok(v) => vals.push(v),
            Err(e) => {
                return Err(error_from_engine(&e));
            },
        }
        i = i + 1;
    }
    Ok(vals)
}

/// The row a sequence of engine values deserializes to.
pub open spec fn spec_row_from_engine(vals: Seq<EngineValue>) -> Seq<ValueModel> {
    Seq::new(vals.len(), |i: int| spec_from_engine(vals[i]@))
}

/// Deserialize one engine row into a row of values.
pub fn row_from_engine(vals: Vec<EngineValue>) -> (r: Row)
    ensures
        r@ == spec_row_from_engine(vals@),
{
    let ghost model = vals@;
    let mut r = Row::new();
    let mut rest = vals;
    let ghost mut i: int = 0;
    while rest.len() > 0
        invariant
            i + rest@.len() == model.len(),
            0 <= i <= model.len(),
            forall|j: int| 0 <= j < rest@.len() ==> rest@[j] == model[i + j],
            r@ =~= spec_row_from_engine(model).take(i),
        decreases rest@.len(),
    {
        let v = rest.remove(0);
        r.push(Value::from(v));
        proof {
            i = i + 1;
            assert(r@ =~= spec_row_from_engine(model).take(i));
        }
    }
    proof {
        assert(r@ =~= spec_row_from_engine(model));
    }
    r
}

/// The arguments a sequence of engine values deserializes to.
pub fn args_from_engine(vals: Vec<EngineValue>) -> (r: Args)
    ensures
        r@ == spec_row_from_engine(vals@),
{
    let ghost model = vals@;
    let mut r = Args::new();
    let mut rest = vals;
    let ghost mut i: int = 0;
    while rest.len() > 0
        invariant
            i + rest@.len() == model.len(),
            0 <= i <= model.len(),
            forall|j: int| 0 <= j < rest@.len() ==> rest@[j] == model[i + j],
            r@ =~= spec_row_from_engine(model).take(i),
        decreases rest@.len(),
    {
        let v = rest.remove(0);
        r.push(Value::from(v));
        proof {
            i = i + 1;
            assert(r@ =~= spec_row_from_engine(model).take(i));
        }
    }
    proof {
        assert(r@ =~= spec_row_from_engine(model));
    }
    r
}

/// What a scalar function hands back to the engine: the value marshalled
/// into engine form on success, the printed structured error otherwise,
/// so the caller can parse the code and message back out.
pub fn scalar_outcome(r: Result<Value, Error>) -> (out: Result<EngineValue, String>)
    requires
        r matches Err(e) ==> e.wf(),
    ensures
        match r {
            Ok(v) => out matches Ok(e) && e@ == spec_to_engine(v@),
            Err(err) => out matches Err(s) && s@ == crate::error::spec_error_text(err@),
        },
{
    match r {
        Ok(v) => Ok(v.to_engine()),
        Err(e) => Err(e.to_text()),
    }
}

/// Whether the text matches a keyword letter by letter, each position in
/// its upper or lower case.
pub open spec fn spec_kw_match(s: Seq<char>, up: Seq<char>, low: Seq<char>) -> bool {
    s.len() == up.len() && up.len() == low.len() && forall|i: int|
        0 <= i < s.len() ==> (#[trigger] s[i]) == up[i] || s[i] == low[i]
}

/// Whether the characters match a keyword given in both cases.
pub fn kw_match(v: &Vec<char>, up: &str, low: &str) -> (r: bool)
    ensures
        r == spec_kw_match(v@, up@, low@),
{
    let u = chars_vec(up);
    let l = chars_vec(low);
    if v.len() != u.len() || u.len() != l.len() {
        return false;
    }
    let mut i: usize = 0;
    while i < v.len()
        invariant
            i <= v@.len(),
            v@.len() == u@.len() == l@.len(),
            u@ == up@,
            l@ == low@,
            forall|j: int| 0 <= j < i ==> (#[trigger] v@[j]) == u@[j] || v@[j] == l@[j],
        decreases v@.len() - i,
    {
        if v[i] != u[i] && v[i] != l[i] {
            return false;
        }
        i = i + 1;
    }
    true
}

/// The fixed mapping from a declared SQL type to a column type: `TEXT`,
/// `INTEGER`, `REAL` and `BLOB` map to their column types regardless of
/// case, anything else declared maps to `Number`, and an undeclared type
/// to `Nil`.
pub open spec fn spec_decl_type(d: Option<Seq<char>>) -> DataType {
    match d {
        Option::None => DataType::Nil,
        Option::Some(s) => {
            if spec_kw_match(s, "TEXT"@, "text"@) {
                DataType::String
            } else if spec_kw_match(s, "INTEGER"@, "integer"@) {
                DataType::Integer
            } else if spec_kw_match(s, "REAL"@, "real"@) {
                DataType::Number
            } else if spec_kw_match(s, "BLOB"@, "blob"@) {
                DataType::Bytes
            } else {
                DataType::Number
            }
        },
    }
}

/// The column type a declared SQL type maps to.
pub fn decl_type_of(d: &Option<String>) -> (t: DataType)
    ensures
        t == spec_decl_type(match d {
            Option::None => Option::None,
            Option::Some(s) => Option::Some(s@),
        }),
{
    match d {
        Option::None => DataType::Nil,
        Option::Some(s) => {
            let v = chars_vec(s.as_str());
            if kw_match(&v, "TEXT", "text") {
                DataType::String
            } else if kw_match(&v, "INTEGER", "integer") {
                DataType::Integer
            } else if kw_match(&v, "REAL", "real") {
                DataType::Number
            } else if kw_match(&v, "BLOB", "blob") {
                DataType::Bytes
            } else {
                DataType::Number
            }
        },
    }
}

/// The schema the declared names and SQL types fall back to when a
/// statement yields no rows.
pub open spec fn spec_decl_columns(names: Seq<String>, decls: Seq<Option<String>>) -> Seq<
    (Seq<char>, DataType),
> {
    Seq::new(
        names.len(),
        |i: int|
            (
                names[i]@,
                spec_decl_type(
                    match decls[i] {
                        Option::None => Option::None,
                        Option::Some(s) => Option::Some(s@),
                    },
                ),
            ),
    )
}

/// The fallback schema from declared names and SQL types.
pub fn columns_from_decls(names: &Vec<String>, decls: &Vec<Option<String>>) -> (c: Columns)
    requires
        names@.len() == decls@.len(),
    ensures
        c@ == spec_decl_columns(names@, decls@),
{
    let mut c = Columns::new();
    let mut i: usize = 0;
    while i < names.len()
        invariant
            i <= names@.len(),
            names@.len() == decls@.len(),
            c@ =~= spec_decl_columns(names@, decls@).take(i as int),
        decreases names@.len() - i,
    {
        c.push(names[i].as_str(), decl_type_of(&decls[i]));
        i = i + 1;
        proof {
            assert(c@ =~= spec_decl_columns(names@, decls@).take(i as int));
        }
    }
    proof {
        assert(c@ =~= spec_decl_columns(names@, decls@));
    }
    c
}

/// The schema derived from the declared names and the first row's value
/// types.
pub open spec fn spec_row_columns(names: Seq<String>, row: Seq<ValueModel>) -> Seq<
    (Seq<char>, DataType),
> {
    Seq::new(names.len(), |i: int| (names[i]@, spec_type_of(row[i])))
}

/// The schema derived from declared names and the first row's types.
pub fn columns_from_row(names: &Vec<String>, row: &Row) -> (c: Columns)
    requires
        names@.len() == row@.len(),
    ensures
        c@ == spec_row_columns(names@, row@),
{
    let mut c = Columns::new();
    let mut i: usize = 0;
    while i < names.len()
        invariant
            i <= names@.len(),
            names@.len() == row@.len(),
            c@ =~= spec_row_columns(names@, row@).take(i as int),
        decreases names@.len() - i,
    {
        let value = match row.get_value(i) {
            Ok(v) => v,
            Err(_) => {
                proof {
                    assert(false);
                }
                return c;
            },
        };
        c.push(names[i].as_str(), value.get_type());
        i = i + 1;
        proof {
            assert(c@ =~= spec_row_columns(names@, row@).take(i as int));
        }
    }
    proof {
        assert(c@ =~= spec_row_columns(names@, row@));
    }
    c
}

/// A row is always valid against the schema derived from its own types.
pub proof fn lemma_row_columns_valid(names: Seq<String>, row: Seq<ValueModel>)
    requires
        names.len() == row.len(),
    ensures
        spec_row_valid(row, spec_row_columns(names, row)),
{
}

/// Prepare and run one statement, publishing its schema and rows on the
/// request: the first row decides the column types, the declared SQL
/// types serve as fallback when there is none, and every following row is
/// validated before it enters the channel. The terminal event is the
/// caller's to publish: on success the request holds its schema and no
/// terminal; on failure the structured engine error is returned and the
/// request holds no terminal.
pub fn commit_statement(conn: &SqliteConnection, script: &str, request: &mut Request) -> (r:
    Result<(), Error>)
    requires
        old(request).inv(),
        !old(request).is_done(),
        !old(request).has_ready(),
    ensures
        final(request).inv(),
        !final(request).is_done(),
        r matches Ok(()) ==> final(request).has_ready(),
        r matches Err(e) ==> e.wf(),
{
    let mut stmt = match engine_prepare(conn, script) {
        Ok(s) => s,
        Err(e) => {
            return Err(error_from_engine(&e));
        },
    };
    let n = stmt_column_count(&stmt);
    let mut names: Vec<String> = Vec::new();
    let mut decls: Vec<Option<String>> = Vec::new();
    let mut i: usize = 0;
    while i < n
        invariant
            i <= n,
            names@.len() == i,
            decls@.len() == i,
            request.inv(),
            !request.is_done(),
            !request.has_ready(),
        decreases n - i,
    {
        match stmt_column_name(&stmt, i) {
            Ok(name) => names.push(name),
            Err(e) => {
                return Err(error_from_engine(&e));
            },
        }
        decls.push(stmt_column_decl(&stmt, i));
        i = i + 1;
    }
    let mut rows = match stmt_query(&mut stmt) {
        Ok(r) => r,
        Err(e) => {
            return Err(error_from_engine(&e));
        },
    };
    let first = match rows_next(&mut rows) {
        Ok(r) => r,
        Err(e) => {
            return Err(error_from_engine(&e));
        },
    };
    let committer = match first {
        Option::None => {
            let cols = columns_from_decls(&names, &decls);
            match request.new_commit(cols) {
                Ok(_) => {
                    return Ok(());
                },
                Err(e) => {
                    return Err(e);
                },
            }
        },
        Option::Some(row0) => {
            let vals = match engine_row_values(row0) {
                Ok(v) => v,
                Err(e) => {
                    return Err(e);
                },
            };
            if vals.len() != names.len() {
                return Err(
                    Error::invalid(
                        crate::statement::SUB_PROTOCOL,
                        "the engine returned a row of unexpected width".to_owned(),
                    ),
                );
            }
            let row = row_from_engine(vals);
            let cols = columns_from_row(&names, &row);
            proof {
                lemma_row_columns_valid(names@, row@);
            }
            let committer = match request.new_commit(cols) {
                Ok(c) => c,
                Err(e) => {
                    return Err(e);
                },
            };
            match committer.commit(request, State::Process(row)) {
                Ok(()) => {},
                Err(e) => {
                    return Err(e);
                },
            }
            committer
        },
    };
    let mut fuel: u64 = u64::MAX;
    while fuel > 0
        invariant
            request.inv(),
            !request.is_done(),
            request.has_ready(),
            request.ready_cols() == committer.columns@,
        decreases fuel,
    {
        fuel = fuel - 1;
        let next = match rows_next(&mut rows) {
            Ok(r) => r,
            Err(e) => {
                return Err(error_from_engine(&e));
            },
        };
        match next {
            Option::None => {
                return Ok(());
            },
            Option::Some(raw) => {
                let vals = match engine_row_values(raw) {
                    Ok(v) => v,
                    Err(e) => {
                        return Err(e);
                    },
                };
                let row = row_from_engine(vals);
                match committer.commit(request, State::Process(row)) {
                    Ok(()) => {},
                    Err(e) => {
                        return Err(e);
                    },
                }
            },
        }
    }
    Err(Error::internal(0, "the statement cursor did not finish".to_owned()))
}

} // verus!
