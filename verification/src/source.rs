//! Data sources: typed record schemas, the producer contract, the host
//! driver that completes every stream, and the name registry.
//!
//! A data source is a named producer with a declared output schema and a
//! declared argument schema. Its `execute` publishes events on a fresh
//! request; the host driver fills in a missing terminal, so every run
//! delivers a complete well-formed stream while the consumer lives.
use vstd::prelude::*;
use crate::error::{Error, spec_code, BASE_INVALID};
use crate::request::{Promise, Request, channel_closed_code};
use crate::state::{StateModel, ToData, stream_complete, stream_wf_prefix};
use crate::table::{Columns, Row, spec_row_valid};
use crate::text::{chars_vec, spec_lines, spec_trim, split_lines, str_eq, str_views, trim_text};
use crate::value::{DataType, Value, ValueModel};

verus! {

/// Subcode of the invalid kind for a producer that reported success
/// without ever publishing its schema.
pub const SUB_NO_SCHEMA: i32 = 3;

/// Subcode of the invalid kind for a duplicate source registration.
pub const SUB_DUPLICATE: i32 = 4;

/// Whether a sequence of names holds a given name.
pub open spec fn seq_has(s: Seq<Seq<char>>, x: Seq<char>) -> bool {
    exists|i: int| 0 <= i < s.len() && s[i] == x
}

/// A named producer of rows with declared output and argument schemas.
pub trait DataSource {
    /// The name the source registers under.
    spec fn spec_name(&self) -> Seq<char>;

    /// The declared output schema.
    spec fn spec_columns(&self) -> Seq<(Seq<char>, DataType)>;

    /// The declared argument schema.
    spec fn spec_args(&self) -> Seq<(Seq<char>, DataType)>;

    /// The name the source registers under.
    fn name(&self) -> (n: String)
        ensures
            n@ == self.spec_name(),
    ;

    /// The declared output schema.
    fn columns(&self) -> (c: Columns)
        ensures
            c@ == self.spec_columns(),
    ;

    /// The declared argument schema.
    fn args(&self) -> (a: Columns)
        ensures
            a@ == self.spec_args(),
    ;

    /// Run the producer to completion on a fresh request. The delivered
    /// events stay a well-formed stream.
    fn execute(&self, req: &mut Request) -> (r: Result<(), Error>)
        requires
            old(req).inv(),
            !old(req).is_done(),
            !old(req).has_ready(),
        ensures
            final(req).inv(),
    ;
}

/// Run a producer and complete its stream: a missing terminal is filled
/// in — the producer's error, success, or an invalid-kind error when it
/// reported success without a schema. The flag is false only when the
/// consumer vanished mid-stream; a completed run delivered a complete
/// well-formed stream, and every run delivered a well-formed one.
pub fn run_producer<D: DataSource>(ds: &D, req: Request) -> (r: (bool, Ghost<Seq<StateModel>>))
    requires
        req.inv(),
        !req.is_done(),
        !req.has_ready(),
    ensures
        r.0 ==> stream_complete(r.1@),
        !r.0 ==> stream_wf_prefix(r.1@),
{
    let mut req = req;
    let result = ds.execute(&mut req);
    proof {
        crate::request::lemma_request_inv(&req);
    }
    if req.finished() {
        return (true, Ghost(req.sent()));
    }
    match result {
        Ok(()) => {
            if req.published() {
                match req.ok() {
                    Ok(()) => (true, Ghost(req.sent())),
                    Err(_) => (false, Ghost(req.sent())),
                }
            } else {
                let e = Error::invalid(
                    SUB_NO_SCHEMA,
                    "the producer reported success without publishing a schema".to_owned(),
                );
                match req.error(e) {
                    Ok(()) => (true, Ghost(req.sent())),
                    Err(_) => (false, Ghost(req.sent())),
                }
            }
        },
        Err(e) => match req.error(e) {
            Ok(()) => (true, Ghost(req.sent())),
            Err(_) => (false, Ghost(req.sent())),
        },
    }
}

/// A data source over rows gathered ahead of time: the host collects the
/// rows (often with I/O of its own), and this source publishes the
/// declared schema and every row that validates against it, stopping at
/// the first row that does not.
pub struct StaticSource {
    pub source_name: String,
    pub columns: Columns,
    pub args: Columns,
    pub rows: Vec<Row>,
}

impl StaticSource {
    /// Every pre-gathered row is valid against the declared schema.
    pub open spec fn rows_valid(&self) -> bool {
        forall|i: int|
            0 <= i < self.rows@.len() ==> spec_row_valid(
                (#[trigger] self.rows@[i])@,
                self.columns@,
            )
    }

    /// The events a full publication delivers: the declared schema, then
    /// every pre-gathered row in order.
    pub open spec fn spec_events(&self) -> Seq<StateModel> {
        seq![StateModel::Ready(self.columns@)] + Seq::new(
            self.rows@.len(),
            |i: int| StateModel::Process(self.rows@[i]@),
        )
    }

    /// Publish the declared schema and the pre-gathered rows. On success
    /// every row was valid and the stream grew by exactly the schema and
    /// the rows in order; a failure is the first invalid row, rejected
    /// before the channel, or the consumer being gone.
    pub fn publish_rows(&self, req: &mut Request) -> (r: Result<(), Error>)
        requires
            old(req).inv(),
            !old(req).is_done(),
            !old(req).has_ready(),
        ensures
            final(req).inv(),
            !final(req).is_done(),
            final(req).args_model() == old(req).args_model(),
            r matches Ok(()) ==> final(req).sent() == old(req).sent() + self.spec_events()
                && self.rows_valid() && final(req).has_ready(),
            r matches Err(e) ==> (e@.code == channel_closed_code() || (e@.code == spec_code(
                crate::error::BASE_INVALID_TYPE as int,
                0,
            ) && !self.rows_valid())),
    {
        let ghost base = old(req).sent();
        let committer = match req.new_commit(self.columns.duplicate()) {
            Ok(c) => c,
            Err(e) => {
                return Err(e);
            },
        };
        let mut i: usize = 0;
        while i < self.rows.len()
            invariant
                i <= self.rows@.len(),
                req.inv(),
                !req.is_done(),
                req.has_ready(),
                req.ready_cols() == committer.columns@,
                committer.columns@ == self.columns@,
                req.args_model() == old(req).args_model(),
                req.sent() =~= base + seq![StateModel::Ready(self.columns@)] + Seq::new(
                    i as nat,
                    |j: int| StateModel::Process(self.rows@[j]@),
                ),
                forall|j: int|
                    0 <= j < i ==> spec_row_valid((#[trigger] self.rows@[j])@, self.columns@),
            decreases self.rows@.len() - i,
        {
            let row = self.rows[i].duplicate();
            match committer.commit(req, crate::state::State::Process(row)) {
                Ok(()) => {},
                Err(e) => {
                    return Err(e);
                },
            }
            i = i + 1;
            proof {
                assert(req.sent() =~= base + seq![StateModel::Ready(self.columns@)] + Seq::new(
                    i as nat,
                    |j: int| StateModel::Process(self.rows@[j]@),
                ));
            }
        }
        proof {
            assert(req.sent() =~= old(req).sent() + self.spec_events());
        }
        Ok(())
    }
}

impl DataSource for StaticSource {
    open spec fn spec_name(&self) -> Seq<char> {
        self.source_name@
    }

    open spec fn spec_columns(&self) -> Seq<(Seq<char>, DataType)> {
        self.columns@
    }

    open spec fn spec_args(&self) -> Seq<(Seq<char>, DataType)> {
        self.args@
    }

    fn name(&self) -> (n: String) {
        self.source_name.clone()
    }

    fn columns(&self) -> (c: Columns) {
        self.columns.duplicate()
    }

    fn args(&self) -> (a: Columns) {
        self.args.duplicate()
    }

    fn execute(&self, req: &mut Request) -> (r: Result<(), Error>) {
        self.publish_rows(req)
    }
}


/// One row of host basics.
pub struct HostBasic {
    pub host_name: String,
    pub cpu_core: i64,
    pub cpu_model: String,
    pub uptime: i64,
    pub memory: i64,
}

impl ToData for HostBasic {
    open spec fn spec_columns() -> Seq<(Seq<char>, DataType)> {
        seq![
            ("host_name"@, DataType::String),
            ("cpu_core"@, DataType::Integer),
            ("cpu_model"@, DataType::String),
            ("uptime"@, DataType::Integer),
            ("memory"@, DataType::Integer),
        ]
    }

    open spec fn spec_row(&self) -> Seq<ValueModel> {
        seq![
            ValueModel::Str(self.host_name@),
            ValueModel::Int(self.cpu_core as int),
            ValueModel::Str(self.cpu_model@),
            ValueModel::Int(self.uptime as int),
            ValueModel::Int(self.memory as int),
        ]
    }

    fn columns() -> (c: Columns) {
        let mut c = Columns::new();
        c.push("host_name", DataType::String);
        c.push("cpu_core", DataType::Integer);
        c.push("cpu_model", DataType::String);
        c.push("uptime", DataType::Integer);
        c.push("memory", DataType::Integer);
        proof {
            assert(c@ =~= Self::spec_columns());
        }
        c
    }

    fn to_row(self) -> (r: Row) {
        let mut r = Row::new();
        r.push(Value::String(self.host_name));
        r.push(Value::Integer(self.cpu_core));
        r.push(Value::String(self.cpu_model));
        r.push(Value::Integer(self.uptime));
        r.push(Value::Integer(self.memory));
        proof {
            assert(r@ =~= self.spec_row());
            assert(spec_row_valid(r@, Self::spec_columns()));
        }
        r
    }
}

/// One row of operating-system identification.
pub struct OSInfo {
    pub os_type: String,
    pub version: String,
    pub host_name: String,
}

impl ToData for OSInfo {
    open spec fn spec_columns() -> Seq<(Seq<char>, DataType)> {
        seq![
            ("os_type"@, DataType::String),
            ("version"@, DataType::String),
            ("host_name"@, DataType::String),
        ]
    }

    open spec fn spec_row(&self) -> Seq<ValueModel> {
        seq![
            ValueModel::Str(self.os_type@),
            ValueModel::Str(self.version@),
            ValueModel::Str(self.host_name@),
        ]
    }

    fn columns() -> (c: Columns) {
        let mut c = Columns::new();
        c.push("os_type", DataType::String);
        c.push("version", DataType::String);
        c.push("host_name", DataType::String);
        proof {
            assert(c@ =~= Self::spec_columns());
        }
        c
    }

    fn to_row(self) -> (r: Row) {
        let mut r = Row::new();
        r.push(Value::String(self.os_type));
        r.push(Value::String(self.version));
        r.push(Value::String(self.host_name));
        proof {
            assert(r@ =~= self.spec_row());
            assert(spec_row_valid(r@, Self::spec_columns()));
        }
        r
    }
}

/// One success marker row for remote file operations.
pub struct Status {
    pub success: bool,
}

impl ToData for Status {
    open spec fn spec_columns() -> Seq<(Seq<char>, DataType)> {
        seq![("success"@, DataType::Boolean)]
    }

    open spec fn spec_row(&self) -> Seq<ValueModel> {
        seq![ValueModel::Bool(self.success)]
    }

    fn columns() -> (c: Columns) {
        let mut c = Columns::new();
        c.push("success", DataType::Boolean);
        proof {
            assert(c@ =~= Self::spec_columns());
        }
        c
    }

    fn to_row(self) -> (r: Row) {
        let mut r = Row::new();
        r.push(Value::Boolean(self.success));
        proof {
            assert(r@ =~= self.spec_row());
            assert(spec_row_valid(r@, Self::spec_columns()));
        }
        r
    }
}

/// One output line of a shell run.
pub struct BashRow {
    pub line: String,
    pub line_num: i64,
}

impl ToData for BashRow {
    open spec fn spec_columns() -> Seq<(Seq<char>, DataType)> {
        seq![("line"@, DataType::String), ("line_num"@, DataType::Integer)]
    }

    open spec fn spec_row(&self) -> Seq<ValueModel> {
        seq![ValueModel::Str(self.line@), ValueModel::Int(self.line_num as int)]
    }

    fn columns() -> (c: Columns) {
        let mut c = Columns::new();
        c.push("line", DataType::String);
        c.push("line_num", DataType::Integer);
        proof {
            assert(c@ =~= Self::spec_columns());
        }
        c
    }

    fn to_row(self) -> (r: Row) {
        let mut r = Row::new();
        r.push(Value::String(self.line));
        r.push(Value::Integer(self.line_num));
        proof {
            assert(r@ =~= self.spec_row());
            assert(spec_row_valid(r@, Self::spec_columns()));
        }
        r
    }
}

/// The processor brand read from the probe command's output: the output
/// without surrounding whitespace.
pub fn cpu_brand(output: &str) -> (r: String)
    ensures
        r@ == spec_trim(output@),
{
    trim_text(output)
}

/// What the host gathered for one host-basics row: the raw brand-probe
/// output still to be parsed, and the plain probed numbers.
pub struct HostProbe {
    pub host_name: String,
    pub cpu_core: i64,
    pub uptime: i64,
    pub memory: i64,
    pub brand_output: String,
}

/// Commit one host-basics row built from probed values; the processor
/// brand is parsed out of the raw probe output. Fails only when the
/// consumer is gone.
pub fn host_basic(promise: &Promise<HostBasic>, req: &mut Request, probe: HostProbe) -> (r: Result<
    (),
    Error,
>)
    requires
        promise.wf(),
        old(req).inv(),
        !old(req).is_done(),
        old(req).has_ready(),
        old(req).ready_cols() == HostBasic::spec_columns(),
    ensures
        final(req).inv(),
        !final(req).is_done(),
        match r {
            Ok(()) => final(req).sent() == old(req).sent().push(
                StateModel::Process(
                    seq![
                        ValueModel::Str(probe.host_name@),
                        ValueModel::Int(probe.cpu_core as int),
                        ValueModel::Str(spec_trim(probe.brand_output@)),
                        ValueModel::Int(probe.uptime as int),
                        ValueModel::Int(probe.memory as int),
                    ],
                ),
            ),
            Err(e) => final(req).sent() == old(req).sent() && e@.code == channel_closed_code(),
        },
{
    let cpu_model = cpu_brand(probe.brand_output.as_str());
    let record = HostBasic {
        host_name: probe.host_name,
        cpu_core: probe.cpu_core,
        cpu_model,
        uptime: probe.uptime,
        memory: probe.memory,
    };
    promise.commit(req, record)
}

/// Commit one operating-system row from probed values. Fails only when
/// the consumer is gone.
pub fn os_info(promise: &Promise<OSInfo>, req: &mut Request, probe: OSInfo) -> (r: Result<
    (),
    Error,
>)
    requires
        promise.wf(),
        old(req).inv(),
        !old(req).is_done(),
        old(req).has_ready(),
        old(req).ready_cols() == OSInfo::spec_columns(),
    ensures
        final(req).inv(),
        !final(req).is_done(),
        match r {
            Ok(()) => final(req).sent() == old(req).sent().push(
                StateModel::Process(probe.spec_row()),
            ),
            Err(e) => final(req).sent() == old(req).sent() && e@.code == channel_closed_code(),
        },
{
    promise.commit(req, probe)
}

/// Which built-in producer serves a registered source.
#[derive(Clone, Copy, Debug, PartialEq, Eq, Structural)]
pub enum SourceKind {
    HostBasic,
    OsInfo,
    CpuUsage,
    Filesystem,
    HostMem,
    HostSwap,
    Shell,
    ReadFile,
    WriteFile,
    Mkdir,
}

/// One registered source: its name, schemas, and producer kind.
#[derive(Debug)]
pub struct SourceEntry {
    pub name: String,
    pub columns: Columns,
    pub args: Columns,
    pub kind: SourceKind,
}

/// The name-to-source registry of one connection.
#[derive(Debug)]
pub struct Register {
    entries: Vec<SourceEntry>,
}

impl Register {
    /// The registered names, in registration order.
    pub closed spec fn names(&self) -> Seq<Seq<char>> {
        Seq::new(self.entries@.len(), |i: int| self.entries@[i].name@)
    }

    /// The registered kinds, in registration order.
    pub closed spec fn kinds(&self) -> Seq<SourceKind> {
        Seq::new(self.entries@.len(), |i: int| self.entries@[i].kind)
    }

    /// Whether a name is registered.
    pub open spec fn has_name(&self, name: Seq<char>) -> bool {
        seq_has(self.names(), name)
    }

    /// Registration is one-shot per name.
    pub closed spec fn inv(&self) -> bool {
        forall|i: int, j: int|
            0 <= i < j < self.names().len() ==> self.names()[i] != self.names()[j]
    }

    /// An empty registry.
    pub fn new() -> (r: Register)
        ensures
            r.inv(),
            r.names() == Seq::<Seq<char>>::empty(),
    {
        let r = Register { entries: Vec::new() };
        proof {
            assert(r.names() =~= Seq::<Seq<char>>::empty());
        }
        r
    }

    /// Register one source; a second registration under the same name is
    /// refused with an invalid-kind error.
    pub fn register_source(&mut self, entry: SourceEntry) -> (r: Result<(), Error>)
        requires
            old(self).inv(),
        ensures
            final(self).inv(),
            match r {
                Ok(()) => {
                    &&& !old(self).has_name(entry.name@)
                    &&& final(self).names() == old(self).names().push(entry.name@)
                    &&& final(self).kinds() == old(self).kinds().push(entry.kind)
                },
                Err(e) => {
                    &&& old(self).has_name(entry.name@)
                    &&& final(self).names() == old(self).names()
                    &&& final(self).kinds() == old(self).kinds()
                    &&& e@.code == spec_code(BASE_INVALID as int, SUB_DUPLICATE as int)
                },
            },
    {
        let mut i: usize = 0;
        while i < self.entries.len()
            invariant
                self.names() == old(self).names(),
                self.kinds() == old(self).kinds(),
                self.inv(),
                i <= self.entries@.len(),
                forall|j: int| 0 <= j < i ==> self.names()[j] != entry.name@,
            decreases self.entries@.len() - i,
        {
            if str_eq(self.entries[i].name.as_str(), entry.name.as_str()) {
                proof {
                    assert(self.names()[i as int] == entry.name@);
                }
                return Err(
                    Error::invalid(SUB_DUPLICATE, "a source is already registered under this name".to_owned()),
                );
            }
            i = i + 1;
        }
        let ghost old_names = self.names();
        let ghost old_kinds = self.kinds();
        let ghost name_model = entry.name@;
        let ghost kind_model = entry.kind;
        self.entries.push(entry);
        proof {
            assert(self.names() =~= old_names.push(name_model));
            assert(self.kinds() =~= old_kinds.push(kind_model));
        }
        Ok(())
    }

    /// Look a source up by name.
    pub fn find(&self, name: &str) -> (r: Option<&SourceEntry>)
        ensures
            match r {
                Some(e) => e.name@ == name@ && self.has_name(name@) && exists|i: int|
                    0 <= i < self.names().len() && self.names()[i] == name@ && self.kinds()[i]
                        == e.kind,
                None => !self.has_name(name@),
            },
    {
        let mut i: usize = 0;
        while i < self.entries.len()
            invariant
                i <= self.entries@.len(),
                forall|j: int| 0 <= j < i ==> self.names()[j] != name@,
            decreases self.entries@.len() - i,
        {
            if str_eq(self.entries[i].name.as_str(), name) {
                proof {
                    assert(self.names()[i as int] == name@);
                    assert(self.kinds()[i as int] == self.entries@[i as int].kind);
                }
                return Some(&self.entries[i]);
            }
            i = i + 1;
        }
        None
    }

    /// The number of registered sources.
    pub fn len(&self) -> (n: usize)
        ensures
            n == self.names().len(),
    {
        self.entries.len()
    }

    /// The registered source at a position, in registration order.
    pub fn entry_at(&self, i: usize) -> (e: &SourceEntry)
        requires
            i < self.names().len(),
        ensures
            e.name@ == self.names()[i as int],
            e.kind == self.kinds()[i as int],
    {
        &self.entries[i]
    }
}

/// The SQL type a column type declares in a schema, reversing the
/// marshalling table; a `Nil` column (a template) declares no type.
pub open spec fn spec_sql_decl(t: DataType) -> Seq<char> {
    match t {
        DataType::String => (" TEXT"@),
        DataType::Integer => (" INTEGER"@),
        DataType::Number => (" REAL"@),
        DataType::Boolean => (" INTEGER"@),
        DataType::Bytes => (" BLOB"@),
        DataType::Nil => (""@),
    }
}

/// One declared column of a schema definition: a leading comma when it
/// is not the first, its name, its SQL type, and `HIDDEN` when asked.
pub open spec fn spec_column_decl(
    col: (Seq<char>, DataType),
    first: bool,
    hidden: bool,
) -> Seq<char> {
    (if first {
        Seq::<char>::empty()
    } else {
        (", "@)
    }) + ("\""@) + col.0 + ("\""@) + spec_sql_decl(col.1) + (if hidden {
        (" HIDDEN"@)
    } else {
        Seq::<char>::empty()
    })
}

/// The declared columns of a schema definition, output columns first,
/// argument columns hidden after them.
pub open spec fn spec_schema_body(
    cols: Seq<(Seq<char>, DataType)>,
    args: Seq<(Seq<char>, DataType)>,
) -> Seq<char>
    decreases args.len(), cols.len(),
{
    if args.len() > 0 {
        spec_schema_body(cols, args.drop_last()) + spec_column_decl(
            args.last(),
            cols.len() == 0 && args.len() == 1,
            true,
        )
    } else if cols.len() > 0 {
        spec_schema_body(cols.drop_last(), args) + spec_column_decl(
            cols.last(),
            cols.len() == 1,
            false,
        )
    } else {
        Seq::empty()
    }
}

/// The table definition the engine is handed for a source: its output
/// columns with their declared SQL types, then its argument columns as
/// hidden ones.
pub open spec fn spec_create_table_sql(
    cols: Seq<(Seq<char>, DataType)>,
    args: Seq<(Seq<char>, DataType)>,
) -> Seq<char> {
    ("CREATE TABLE x("@) + spec_schema_body(cols, args) + (")"@)
}

/// The SQL type a column type declares.
fn sql_decl(t: DataType) -> (r: &'static str)
    ensures
        r@ == spec_sql_decl(t),
{
    match t {
        DataType::String => " TEXT",
        DataType::Integer => " INTEGER",
        DataType::Number => " REAL",
        DataType::Boolean => " INTEGER",
        DataType::Bytes => " BLOB",
        DataType::Nil => "",
    }
}


/// Build the table definition the engine is handed for a source.
pub fn create_table_sql(cols: &Columns, args: &Columns) -> (r: String)
    ensures
        r@ == spec_create_table_sql(cols@, args@),
{
    let mut body = String::new();
    let mut i: usize = 0;
    while i < cols.len()
        invariant
            i <= cols@.len(),
            body@ == spec_schema_body(cols@.take(i as int), Seq::<(Seq<char>, DataType)>::empty()),
        decreases cols@.len() - i,
    {
        let ghost before = body@;
        if i > 0 {
            body.append(", ");
        }
        body.append("\"");
        body.append(cols.name_at(i).as_str());
        body.append("\"");
        body.append(sql_decl(cols.type_at(i)));
        i = i + 1;
        proof {
            assert(cols@.take(i as int).drop_last() =~= cols@.take(i as int - 1));
            assert(cols@.take(i as int).last() == cols@[i - 1]);
            assert(body@ =~= before + spec_column_decl(cols@[i - 1], i == 1, false));
            assert(body@ =~= spec_schema_body(
                cols@.take(i as int),
                Seq::<(Seq<char>, DataType)>::empty(),
            ));
        }
    }
    proof {
        assert(cols@.take(cols@.len() as int) =~= cols@);
        assert(args@.take(0) =~= Seq::<(Seq<char>, DataType)>::empty());
    }
    let mut j: usize = 0;
    while j < args.len()
        invariant
            j <= args@.len(),
            body@ == spec_schema_body(cols@, args@.take(j as int)),
        decreases args@.len() - j,
    {
        let ghost before = body@;
        if cols.len() > 0 || j > 0 {
            body.append(", ");
        }
        body.append("\"");
        body.append(args.name_at(j).as_str());
        body.append("\"");
        body.append(sql_decl(args.type_at(j)));
        body.append(" HIDDEN");
        j = j + 1;
        proof {
            assert(args@.take(j as int).drop_last() =~= args@.take(j as int - 1));
            assert(args@.take(j as int).last() == args@[j - 1]);
            assert(body@ =~= before + spec_column_decl(
                args@[j - 1],
                cols@.len() == 0 && j == 1,
                true,
            ));
            assert(body@ =~= spec_schema_body(cols@, args@.take(j as int)));
        }
    }
    proof {
        assert(args@.take(args@.len() as int) =~= args@);
    }
    let mut r = String::new();
    r.append("CREATE TABLE x(");
    r.append(body.as_str());
    r.append(")");
    proof {
        assert(r@ =~= spec_create_table_sql(cols@, args@));
    }
    r
}

/// The names of the built-in agent pack, in registration order.
pub open spec fn agent_pack_names() -> Seq<Seq<char>> {
    seq![
        ("read_file"@),
        ("mkdir"@),
        ("write_file"@),
        ("shell"@),
        ("filesystem"@),
        ("host_basic"@),
        ("cpu_usage"@),
        ("os_info"@),
        ("host_mem"@),
        ("host_swap"@),
    ]
}

/// Register the built-in agent pack: file operations, shell, filesystem
/// listing, and the host probes. Succeeds when none of the pack's names
/// is taken yet, extending the registry by the pack in order.
pub fn register_ds(reg: &mut Register) -> (r: Result<(), Error>)
    requires
        old(reg).inv(),
    ensures
        final(reg).inv(),
        r is Ok ==> final(reg).names() == old(reg).names() + agent_pack_names(),
        r is Err ==> exists|i: int|
            0 <= i < agent_pack_names().len() && seq_has(
                old(reg).names() + agent_pack_names().take(i),
                #[trigger] agent_pack_names()[i],
            ),
        r matches Err(e) ==> e@.code == spec_code(BASE_INVALID as int, SUB_DUPLICATE as int),
{
    let ghost base = old(reg).names();
    let ghost pack = agent_pack_names();
    // read_file
    let mut cols = Columns::new();
    cols.push("content", DataType::Bytes);
    let mut arg_cols = Columns::new();
    arg_cols.push("path", DataType::String);
    let ghost before = reg.names();
    if let Err(err) = reg.register_source(
        SourceEntry {
            name: "read_file".to_owned(),
            columns: cols,
            args: arg_cols,
            kind: SourceKind::ReadFile,
        },
    ) {
        proof {
            assert(before =~= base + pack.take(0));
            assert(seq_has(base + pack.take(0), pack[0]));
        }
        return Err(err);
    }
    proof {
        assert(reg.names() =~= base + pack.take(1));
    }
    // mkdir
    let mut cols = Columns::new();
    cols.push("success", DataType::Boolean);
    let mut arg_cols = Columns::new();
    arg_cols.push("path", DataType::String);
    let ghost before = reg.names();
    if let Err(err) = reg.register_source(
        SourceEntry {
            name: "mkdir".to_owned(),
            columns: cols,
            args: arg_cols,
            kind: SourceKind::Mkdir,
        },
    ) {
        proof {
            assert(before =~= base + pack.take(1));
            assert(seq_has(base + pack.take(1), pack[1]));
        }
        return Err(err);
    }
    proof {
        assert(reg.names() =~= base + pack.take(2));
    }
    // write_file
    let mut cols = Columns::new();
    cols.push("success", DataType::Boolean);
    let mut arg_cols = Columns::new();
    arg_cols.push("path", DataType::String);
    arg_cols.push("content", DataType::Bytes);
    let ghost before = reg.names();
    if let Err(err) = reg.register_source(
        SourceEntry {
            name: "write_file".to_owned(),
            columns: cols,
            args: arg_cols,
            kind: SourceKind::WriteFile,
        },
    ) {
        proof {
            assert(before =~= base + pack.take(2));
            assert(seq_has(base + pack.take(2), pack[2]));
        }
        return Err(err);
    }
    proof {
        assert(reg.names() =~= base + pack.take(3));
    }
    // shell
    let mut cols = Columns::new();
    cols.push("line", DataType::String);
    cols.push("line_num", DataType::Integer);
    let mut arg_cols = Columns::new();
    arg_cols.push("script", DataType::String);
    arg_cols.push("timeout", DataType::Integer);
    let ghost before = reg.names();
    if let Err(err) = reg.register_source(
        SourceEntry {
            name: "shell".to_owned(),
            columns: cols,
            args: arg_cols,
            kind: SourceKind::Shell,
        },
    ) {
        proof {
            assert(before =~= base + pack.take(3));
            assert(seq_has(base + pack.take(3), pack[3]));
        }
        return Err(err);
    }
    proof {
        assert(reg.names() =~= base + pack.take(4));
    }
    // filesystem
    let mut cols = Columns::new();
    cols.push("name", DataType::String);
    cols.push("mount_on", DataType::String);
    cols.push("total", DataType::Integer);
    cols.push("used", DataType::Integer);
    cols.push("free", DataType::Integer);
    let mut arg_cols = Columns::new();
    let ghost before = reg.names();
    if let Err(err) = reg.register_source(
        SourceEntry {
            name: "filesystem".to_owned(),
            columns: cols,
            args: arg_cols,
            kind: SourceKind::Filesystem,
        },
    ) {
        proof {
            assert(before =~= base + pack.take(4));
            assert(seq_has(base + pack.take(4), pack[4]));
        }
        return Err(err);
    }
    proof {
        assert(reg.names() =~= base + pack.take(5));
    }
    // host_basic
    let mut cols = Columns::new();
    cols.push("host_name", DataType::String);
    cols.push("cpu_core", DataType::Integer);
    cols.push("cpu_model", DataType::String);
    cols.push("uptime", DataType::Integer);
    cols.push("memory", DataType::Integer);
    let mut arg_cols = Columns::new();
    let ghost before = reg.names();
    if let Err(err) = reg.register_source(
        SourceEntry {
            name: "host_basic".to_owned(),
            columns: cols,
            args: arg_cols,
            kind: SourceKind::HostBasic,
        },
    ) {
        proof {
            assert(before =~= base + pack.take(5));
            assert(seq_has(base + pack.take(5), pack[5]));
        }
        return Err(err);
    }
    proof {
        assert(reg.names() =~= base + pack.take(6));
    }
    // cpu_usage
    let mut cols = Columns::new();
    cols.push("idle", DataType::Number);
    cols.push("user", DataType::Number);
    cols.push("system", DataType::Number);
    cols.push("iowait", DataType::Number);
    let mut arg_cols = Columns::new();
    let ghost before = reg.names();
    if let Err(err) = reg.register_source(
        SourceEntry {
            name: "cpu_usage".to_owned(),
            columns: cols,
            args: arg_cols,
            kind: SourceKind::CpuUsage,
        },
    ) {
        proof {
            assert(before =~= base + pack.take(6));
            assert(seq_has(base + pack.take(6), pack[6]));
        }
        return Err(err);
    }
    proof {
        assert(reg.names() =~= base + pack.take(7));
    }
    // os_info
    let mut cols = Columns::new();
    cols.push("os_type", DataType::String);
    cols.push("version", DataType::String);
    cols.push("host_name", DataType::String);
    let mut arg_cols = Columns::new();
    let ghost before = reg.names();
    if let Err(err) = reg.register_source(
        SourceEntry {
            name: "os_info".to_owned(),
            columns: cols,
            args: arg_cols,
            kind: SourceKind::OsInfo,
        },
    ) {
        proof {
            assert(before =~= base + pack.take(7));
            assert(seq_has(base + pack.take(7), pack[7]));
        }
        return Err(err);
    }
    proof {
        assert(reg.names() =~= base + pack.take(8));
    }
    // host_mem
    let mut cols = Columns::new();
    cols.push("total", DataType::Integer);
    cols.push("used", DataType::Integer);
    cols.push("free", DataType::Integer);
    let mut arg_cols = Columns::new();
    let ghost before = reg.names();
    if let Err(err) = reg.register_source(
        SourceEntry {
            name: "host_mem".to_owned(),
            columns: cols,
            args: arg_cols,
            kind: SourceKind::HostMem,
        },
    ) {
        proof {
            assert(before =~= base + pack.take(8));
            assert(seq_has(base + pack.take(8), pack[8]));
        }
        return Err(err);
    }
    proof {
        assert(reg.names() =~= base + pack.take(9));
    }
    // host_swap
    let mut cols = Columns::new();
    cols.push("total", DataType::Integer);
    cols.push("used", DataType::Integer);
    cols.push("free", DataType::Integer);
    let mut arg_cols = Columns::new();
    let ghost before = reg.names();
    if let Err(err) = reg.register_source(
        SourceEntry {
            name: "host_swap".to_owned(),
            columns: cols,
            args: arg_cols,
            kind: SourceKind::HostSwap,
        },
    ) {
        proof {
            assert(before =~= base + pack.take(9));
            assert(seq_has(base + pack.take(9), pack[9]));
        }
        return Err(err);
    }
    proof {
        assert(reg.names() =~= base + pack.take(10));
    }
    proof {
        assert(pack.take(pack.len() as int) =~= pack);
    }
    Ok(())
}

/// A schema of one column.
pub fn one_column(name: &str, dtype: DataType) -> (c: Columns)
    ensures
        c@ == seq![(name@, dtype)],
{
    let mut c = Columns::new();
    c.push(name, dtype);
    proof {
        assert(c@ =~= seq![(name@, dtype)]);
    }
    c
}

/// The output lines a shell run commits: everything strictly between the
/// start marker line and the end marker line, skipping blank lines and
/// every line that trims to the start marker; the end marker counts only
/// after the start marker was seen.
pub open spec fn spec_shell_rows(
    lines: Seq<Seq<char>>,
    started: bool,
    start: Seq<char>,
    end: Seq<char>,
) -> Seq<Seq<char>>
    decreases lines.len(),
{
    if lines.len() == 0 {
        Seq::empty()
    } else {
        let t = spec_trim(lines[0]);
        let rest = lines.drop_first();
        if t == start {
            spec_shell_rows(rest, true, start, end)
        } else if !started {
            spec_shell_rows(rest, false, start, end)
        } else if t == end {
            Seq::empty()
        } else if t.len() == 0 {
            spec_shell_rows(rest, true, start, end)
        } else {
            seq![lines[0]] + spec_shell_rows(rest, true, start, end)
        }
    }
}

/// The stream events committing a sequence of output lines: one row per
/// line, numbered from zero.
pub open spec fn spec_shell_events(rows: Seq<Seq<char>>) -> Seq<StateModel> {
    Seq::new(
        rows.len(),
        |k: int| StateModel::Process(seq![ValueModel::Str(rows[k]), ValueModel::Int(k)]),
    )
}

/// Decode a shell run's buffered output between its marker lines and
/// commit one numbered row per non-blank line. On success the committed
/// rows are exactly the lines between the markers; the only failures are
/// the consumer vanishing, or an output too long to number.
pub fn decode_output(
    mark_start: &str,
    mark_end: &str,
    buffer: &str,
    promise: &Promise<BashRow>,
    req: &mut Request,
) -> (r: Result<(), Error>)
    requires
        promise.wf(),
        old(req).inv(),
        !old(req).is_done(),
        old(req).has_ready(),
        old(req).ready_cols() == BashRow::spec_columns(),
    ensures
        final(req).inv(),
        !final(req).is_done(),
        final(req).has_ready(),
        r matches Ok(()) ==> final(req).sent() == old(req).sent() + spec_shell_events(
            spec_shell_rows(spec_lines(buffer@), false, mark_start@, mark_end@),
        ),
        r matches Err(e) ==> (e@.code == channel_closed_code() || e@.code == spec_code(
            crate::error::BASE_INTERNAL as int,
            0,
        )),
{
    let ghost all = spec_shell_rows(spec_lines(buffer@), false, mark_start@, mark_end@);
    let lines = split_lines(buffer);
    let mut has_start = false;
    let mut index: usize = 0;
    let mut i: usize = 0;
    proof {
        assert(str_views(lines@).skip(0) =~= str_views(lines@));
    }
    while i < lines.len()
        invariant
            promise.wf(),
            req.inv(),
            !req.is_done(),
            req.has_ready(),
            req.ready_cols() == BashRow::spec_columns(),
            i <= lines@.len(),
            str_views(lines@) == spec_lines(buffer@),
            index <= i,
            index <= all.len(),
            all == spec_shell_rows(spec_lines(buffer@), false, mark_start@, mark_end@),
            all =~= all.take(index as int) + spec_shell_rows(
                str_views(lines@).skip(i as int),
                has_start,
                mark_start@,
                mark_end@,
            ),
            req.sent() == old(req).sent() + spec_shell_events(all.take(index as int)),
        decreases lines@.len() - i,
    {
        let ghost rest = str_views(lines@).skip(i as int);
        proof {
            assert(rest[0] == lines@[i as int]@);
            assert(rest.drop_first() =~= str_views(lines@).skip(i + 1));
        }
        let trimmed = trim_text(lines[i].as_str());
        if str_eq(trimmed.as_str(), mark_start) {
            has_start = true;
            i = i + 1;
            continue ;
        }
        if !has_start {
            i = i + 1;
            continue ;
        }
        if str_eq(trimmed.as_str(), mark_end) {
            proof {
                assert(spec_shell_rows(rest, true, mark_start@, mark_end@) =~= Seq::<
                    Seq<char>,
                >::empty());
                assert(all =~= all.take(index as int));
                assert(spec_shell_events(all) =~= spec_shell_events(all.take(index as int)));
            }
            return Ok(());
        }
        if !trimmed.as_str().is_empty() {
            if index as u64 >= 0x7FFF_FFFF_FFFF_FFFFu64 {
                return Err(
                    Error::internal(0, "the shell output holds too many lines to number".to_owned()),
                );
            }
            let record = BashRow { line: lines[i].clone(), line_num: index as i64 };
            proof {
                let tail = spec_shell_rows(rest.drop_first(), true, mark_start@, mark_end@);
                assert(spec_shell_rows(rest, true, mark_start@, mark_end@) =~= seq![rest[0]]
                    + tail);
                assert(all =~= all.take(index as int) + (seq![rest[0]] + tail));
                assert(all.len() == index + 1 + tail.len());
                assert(all[index as int] == (all.take(index as int) + (seq![rest[0]]
                    + tail))[index as int]);
                assert(all[index as int] == rest[0]);
                assert(all.take(index as int + 1) =~= all.take(index as int).push(rest[0]));
            }
            match promise.commit(req, record) {
                Ok(()) => {},
                Err(e) => {
                    return Err(e);
                },
            }
            index = index + 1;
            proof {
                assert(record.spec_row() =~= seq![
                    ValueModel::Str(all[index - 1]),
                    ValueModel::Int(index - 1),
                ]);
                assert(spec_shell_events(all.take(index as int)) =~= spec_shell_events(
                    all.take(index - 1),
                ).push(StateModel::Process(record.spec_row())));
                assert(req.sent() =~= old(req).sent() + spec_shell_events(
                    all.take(index as int),
                ));
            }
        } else {
            proof {
                assert(spec_shell_rows(rest, true, mark_start@, mark_end@)
                    =~= spec_shell_rows(rest.drop_first(), true, mark_start@, mark_end@));
            }
        }
        i = i + 1;
    }
    proof {
        assert(str_views(lines@).skip(lines@.len() as int) =~= Seq::<Seq<char>>::empty());
        assert(all =~= all.take(index as int));
        assert(spec_shell_events(all) =~= spec_shell_events(all.take(index as int)));
    }
    Ok(())
}


/// The wrapped script a remote shell runs: the start marker echoed
/// first, the script between blank echoes, the end marker echoed last.
pub fn shell_script(mark_start: &str, mark_end: &str, script: &str) -> (r: String)
    ensures
        r@ == ("echo '"@) + mark_start@ + ("';echo '';"@) + script@ + (";echo '';echo '"@)
            + mark_end@ + ("';"@),
{
    let mut r = String::new();
    r.append("echo '");
    r.append(mark_start);
    r.append("';echo '';");
    r.append(script);
    r.append(";echo '';echo '");
    r.append(mark_end);
    r.append("';");
    proof {
        assert(r@ =~= ("echo '"@) + mark_start@ + ("';echo '';"@) + script@ + (";echo '';echo '"@)
            + mark_end@ + ("';"@));
    }
    r
}

/// Whether the buffered output already holds the end marker at the start
/// of a line.
pub open spec fn spec_has_end_mark(buffer: Seq<char>, end: Seq<char>) -> bool {
    exists|i: int|
        0 <= i && i + 1 + end.len() <= buffer.len() && buffer[i] == '\n' && buffer.subrange(
            i + 1,
            i + 1 + end.len(),
        ) == end
}

/// Whether the buffered output holds a line starting with the end
/// marker; reading may stop once it does.
pub fn buffer_finished(buffer: &str, mark_end: &str) -> (r: bool)
    ensures
        r == spec_has_end_mark(buffer@, mark_end@),
{
    let v = chars_vec(buffer);
    let e = chars_vec(mark_end);
    if v.len() <= e.len() {
        proof {
            assert(!spec_has_end_mark(buffer@, mark_end@));
        }
        return false;
    }
    let last = v.len() - e.len() - 1;
    proof {
        assert(v@.len() <= usize::MAX);
    }
    let mut i: usize = 0;
    while i <= last
        invariant
            v@ == buffer@,
            e@ == mark_end@,
            v@.len() <= usize::MAX,
            e@.len() < v@.len(),
            last == v@.len() - e@.len() - 1,
            i <= last + 1,
            forall|j: int|
                0 <= j < i ==> !(v@[j] == '\n' && v@.subrange(j + 1, j + 1 + e@.len() as int)
                    == e@),
        decreases last + 1 - i,
    {
        if v[i] == '\n' {
            let mut k: usize = 0;
            let mut matched = true;
            while k < e.len()
                invariant_except_break
                    v@ == buffer@,
                    e@ == mark_end@,
                    v@.len() <= usize::MAX,
                    i <= last,
                    last == v@.len() - e@.len() - 1,
                    i + 1 + e@.len() <= v@.len(),
                    k <= e@.len(),
                    matched,
                    forall|m: int| 0 <= m < k ==> v@[i + 1 + m] == e@[m],
                ensures
                    matched ==> forall|m: int| 0 <= m < e@.len() ==> v@[i + 1 + m] == e@[m],
                    !matched ==> exists|m: int|
                        0 <= m < e@.len() && v@[i + 1 + m] != e@[m],
                decreases e@.len() - k,
            {
                if v[i + 1 + k] != e[k] {
                    proof {
                        assert(v@[i + 1 + k as int] != e@[k as int]);
                    }
                    matched = false;
                    break ;
                }
                k = k + 1;
            }
            if matched {
                proof {
                    assert forall|m: int|
                        0 <= m < e@.len() implies v@.subrange(
                        i as int + 1,
                        i + 1 + e@.len() as int,
                    )[m] == e@[m] by {
                        assert(v@[i + 1 + m] == e@[m]);
                    }
                    assert(v@.subrange(i as int + 1, i + 1 + e@.len() as int) =~= e@);
                    assert(spec_has_end_mark(buffer@, mark_end@));
                }
                return true;
            }
            proof {
                let sub = v@.subrange(i as int + 1, i + 1 + e@.len() as int);
                if sub == e@ {
                    let m = choose|m: int| 0 <= m < e@.len() && v@[i + 1 + m] != e@[m];
                    assert(sub[m] == v@[i + 1 + m]);
                    assert(false);
                }
            }
        }
        i = i + 1;
    }
    proof {
        assert(!spec_has_end_mark(buffer@, mark_end@));
    }
    false
}


} // verus!
