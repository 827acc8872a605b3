//! Connections: a URL of the form `scheme:pack:profile` selects the SQL
//! engine backend and the bundle of data sources to pre-register; each
//! statement then runs as one producer over the connection's engine.
use vstd::prelude::*;
use rusqlite::Connection as SqliteConnection;
use crate::engine::{commit_statement, engine_open, engine_set_cache_capacity, error_from_engine};
use crate::error::{Error, spec_code, BASE_INVALID};
use crate::request::Request;
use crate::source::{Register, SourceEntry, SourceKind, register_ds, seq_has, agent_pack_names, SUB_DUPLICATE};
use crate::state::{StateModel, stream_complete, stream_wf_prefix};
use crate::table::Columns;
use crate::text::{chars_vec, str_eq, string_from_chars};
use crate::value::DataType;

verus! {

/// Subcode of the invalid kind for a connection URL that is not three
/// colon-separated fields.
pub const SUB_BAD_URL: i32 = 5;

/// Subcode of the invalid kind for an unknown scheme.
pub const SUB_BAD_SCHEME: i32 = 6;

/// Subcode of the invalid kind for an unknown pack.
pub const SUB_BAD_PACK: i32 = 7;

/// The position of the first colon, or the length when there is none.
pub open spec fn spec_find_colon(s: Seq<char>) -> int
    decreases s.len(),
{
    if s.len() == 0 {
        0
    } else if s[0] == ':' {
        0
    } else {
        1 + spec_find_colon(s.drop_first())
    }
}

/// A URL splits into `scheme:pack:profile` at the first two colons; the
/// profile may itself contain colons.
pub open spec fn spec_parse_url(s: Seq<char>) -> Option<(Seq<char>, Seq<char>, Seq<char>)> {
    let i = spec_find_colon(s);
    if i < s.len() {
        let rest = s.skip(i + 1);
        let j = spec_find_colon(rest);
        if j < rest.len() {
            Some((s.take(i), rest.take(j), rest.skip(j + 1)))
        } else {
            None
        }
    } else {
        None
    }
}

/// The first-colon position is in range, everything before it is not a
/// colon, and in range it marks a colon.
proof fn lemma_find_colon(s: Seq<char>)
    ensures
        0 <= spec_find_colon(s) <= s.len(),
        forall|i: int| 0 <= i < spec_find_colon(s) ==> s[i] != ':',
        spec_find_colon(s) < s.len() ==> s[spec_find_colon(s)] == ':',
    decreases s.len(),
{
    if s.len() > 0 && s[0] != ':' {
        lemma_find_colon(s.drop_first());
        assert forall|i: int| 0 <= i < spec_find_colon(s) implies s[i] != ':' by {
            if i > 0 {
                assert(s[i] == s.drop_first()[i - 1]);
            }
        }
        if spec_find_colon(s) < s.len() {
            assert(s[spec_find_colon(s)] == s.drop_first()[spec_find_colon(s) - 1]);
        }
    }
}

/// The position of the first colon at or after a start index.
fn find_colon(v: &Vec<char>, from: usize) -> (r: usize)
    requires
        from <= v@.len(),
    ensures
        from <= r <= v@.len(),
        r - from == spec_find_colon(v@.skip(from as int)),
    decreases v@.len() - from,
{
    proof {
        lemma_find_colon(v@.skip(from as int));
    }
    let mut i: usize = from;
    while i < v.len() && v[i] != ':'
        invariant
            from <= i <= v@.len(),
            forall|j: int| from <= j < i ==> v@[j] != ':',
        decreases v@.len() - i,
    {
        i = i + 1;
    }
    proof {
        let t = v@.skip(from as int);
        lemma_find_colon(t);
        let k = spec_find_colon(t);
        assert forall|j: int| 0 <= j < t.len() implies t[j] == v@[from + j] by {}
        if k < i - from {
            assert(v@[from + k] == ':');
        }
        if k > i - from {
            assert(i < v@.len());
            assert(t[i - from] == ':');
        }
    }
    i
}

/// Split a connection URL into its scheme, pack and profile; a URL
/// without its two separating colons is invalid.
pub fn parse_url(url: &str) -> (r: Result<(String, String, String), Error>)
    ensures
        match spec_parse_url(url@) {
            Some(parts) => r matches Ok(p) && p.0@ == parts.0 && p.1@ == parts.1 && p.2@
                == parts.2,
            None => r matches Err(e) && e@.code == spec_code(
                BASE_INVALID as int,
                SUB_BAD_URL as int,
            ),
        },
{
    let v = chars_vec(url);
    let i = find_colon(&v, 0);
    proof {
        assert(v@.skip(0) =~= v@);
    }
    if i >= v.len() {
        return Err(
            Error::invalid(SUB_BAD_URL, "a connection URL has the form scheme:pack:profile".to_owned()),
        );
    }
    let j = find_colon(&v, i + 1);
    proof {
        let rest = v@.skip(i + 1);
        assert(rest == v@.skip(i as int + 1));
    }
    if j >= v.len() {
        return Err(
            Error::invalid(SUB_BAD_URL, "a connection URL has the form scheme:pack:profile".to_owned()),
        );
    }
    let mut scheme: Vec<char> = Vec::new();
    let mut k: usize = 0;
    while k < i
        invariant
            k <= i <= v@.len(),
            scheme@ =~= v@.subrange(0, k as int),
        decreases i - k,
    {
        scheme.push(v[k]);
        k = k + 1;
        proof {
            assert(scheme@ =~= v@.subrange(0, k as int));
        }
    }
    let mut pack: Vec<char> = Vec::new();
    let mut k: usize = i + 1;
    while k < j
        invariant
            i + 1 <= k <= j <= v@.len(),
            pack@ =~= v@.subrange(i + 1, k as int),
        decreases j - k,
    {
        pack.push(v[k]);
        k = k + 1;
        proof {
            assert(pack@ =~= v@.subrange(i + 1, k as int));
        }
    }
    let mut profile: Vec<char> = Vec::new();
    let mut k: usize = j + 1;
    while k < v.len()
        invariant
            j + 1 <= k <= v@.len(),
            profile@ =~= v@.subrange(j + 1, k as int),
        decreases v@.len() - k,
    {
        profile.push(v[k]);
        k = k + 1;
        proof {
            assert(profile@ =~= v@.subrange(j + 1, k as int));
        }
    }
    proof {
        let parts = spec_parse_url(url@).unwrap();
        assert(scheme@ =~= parts.0);
        assert(v@.skip(i + 1).take(j - i - 1) =~= v@.subrange(i + 1, j as int));
        assert(pack@ =~= parts.1);
        assert(v@.skip(i + 1).skip(j - i) =~= v@.subrange(j + 1, v@.len() as int));
        assert(profile@ =~= parts.2);
    }
    Ok((string_from_chars(&scheme), string_from_chars(&pack), string_from_chars(&profile)))
}

/// The names of the remote pack, in registration order.
pub open spec fn remote_pack_names() -> Seq<Seq<char>> {
    seq![("shell"@), ("mkdir"@)]
}

/// Register the remote pack: the remote shell and directory creation.
pub fn register_remote(reg: &mut Register) -> (r: Result<(), Error>)
    requires
        old(reg).inv(),
    ensures
        final(reg).inv(),
        r is Ok ==> final(reg).names() == old(reg).names() + remote_pack_names(),
        r is Err ==> exists|i: int|
            0 <= i < remote_pack_names().len() && seq_has(
                old(reg).names() + remote_pack_names().take(i),
                #[trigger] remote_pack_names()[i],
            ),
        r matches Err(e) ==> e@.code == spec_code(BASE_INVALID as int, SUB_DUPLICATE as int),
{
    let ghost base = old(reg).names();
    let ghost pack = remote_pack_names();
    let mut cols = Columns::new();
    cols.push("line", DataType::String);
    cols.push("line_num", DataType::Integer);
    let mut arg_cols = Columns::new();
    arg_cols.push("script", DataType::String);
    arg_cols.push("timeout", DataType::Integer);
    if let Err(err) = reg.register_source(
        SourceEntry {
            name: "shell".to_owned(),
            columns: cols,
            args: arg_cols,
            kind: SourceKind::Shell,
        },
    ) {
        proof {
            assert(reg.names() =~= base + pack.take(0));
            assert(seq_has(base + pack.take(0), pack[0]));
        }
        return Err(err);
    }
    proof {
        assert(reg.names() =~= base + pack.take(1));
    }
    let mut cols = Columns::new();
    cols.push("success", DataType::Boolean);
    let mut arg_cols = Columns::new();
    arg_cols.push("path", DataType::String);
    if let Err(err) = reg.register_source(
        SourceEntry {
            name: "mkdir".to_owned(),
            columns: cols,
            args: arg_cols,
            kind: SourceKind::Mkdir,
        },
    ) {
        proof {
            assert(reg.names() =~= base + pack.take(1));
            assert(seq_has(base + pack.take(1), pack[1]));
        }
        return Err(err);
    }
    proof {
        assert(reg.names() =~= base + pack.take(2));
        assert(pack.take(2) =~= pack);
    }
    Ok(())
}

/// One per-URL session: an engine handle and the registered sources of
/// the selected pack.
#[derive(Debug)]
pub struct Connection {
    engine: SqliteConnection,
    registry: Register,
}

/// A session over the embedded engine.
pub type SqliteSession = Connection;

impl Connection {
    /// A fresh single-statement session: an in-memory, read-only engine
    /// without a statement cache, with nothing registered yet.
    pub fn new() -> (r: Result<Connection, Error>)
        ensures
            r matches Ok(c) ==> c.reg_names() == Seq::<Seq<char>>::empty(),
            r matches Err(e) ==> e.wf(),
    {
        let engine = match engine_open() {
            Ok(c) => c,
            Err(e) => {
                return Err(error_from_engine(&e));
            },
        };
        engine_set_cache_capacity(&engine, 0);
        Ok(Connection { engine, registry: Register::new() })
    }

    /// The registered sources.
    pub closed spec fn reg_names(&self) -> Seq<Seq<char>> {
        self.registry.names()
    }

    /// The registry of this connection.
    pub fn registry(&self) -> (r: &Register)
        ensures
            r.names() == self.reg_names(),
    {
        &self.registry
    }

    /// The engine handle, for hosts that register engine-level callbacks.
    pub fn engine_handle(&self) -> &SqliteConnection {
        &self.engine
    }

    /// Run one statement to completion on this connection's engine,
    /// publishing schema, rows and the terminal event on the request.
    /// The flag is false only when the consumer vanished mid-stream; a
    /// completed run delivered a complete well-formed stream, and every
    /// run delivered a well-formed one.
    pub fn run_statement(&self, script: &str, req: Request) -> (r: (bool, Ghost<Seq<StateModel>>))
        requires
            req.inv(),
            !req.is_done(),
            !req.has_ready(),
        ensures
            r.0 ==> stream_complete(r.1@),
            !r.0 ==> stream_wf_prefix(r.1@),
    {
        let mut req = req;
        let result = commit_statement(&self.engine, script, &mut req);
        proof {
            crate::request::lemma_request_inv(&req);
        }
        match result {
            Ok(()) => match req.ok() {
                Ok(()) => (true, Ghost(req.sent())),
                Err(_) => (false, Ghost(req.sent())),
            },
            Err(e) => match req.error(e) {
                Ok(()) => (true, Ghost(req.sent())),
                Err(_) => (false, Ghost(req.sent())),
            },
        }
    }
}

/// Open a connection for a URL: the scheme selects the engine backend,
/// the pack the pre-registered sources. An unparseable URL, an unknown
/// scheme and an unknown pack are each invalid; opening the engine itself
/// may fail with a structured engine error.
pub fn new_connection(url: &str) -> (r: Result<Connection, Error>)
    ensures
        r matches Err(e) ==> e.wf(),
        match spec_parse_url(url@) {
            None => r matches Err(e) && e@.code == spec_code(
                BASE_INVALID as int,
                SUB_BAD_URL as int,
            ),
            Some(parts) => {
                if parts.0 != ("sqlite"@) {
                    r matches Err(e) && e@.code == spec_code(
                        BASE_INVALID as int,
                        SUB_BAD_SCHEME as int,
                    )
                } else if parts.1 != ("agent"@) && parts.1 != ("remote"@) {
                    r matches Err(e) && e@.code == spec_code(
                        BASE_INVALID as int,
                        SUB_BAD_PACK as int,
                    )
                } else {
                    r matches Ok(c) ==> c.reg_names() == (if parts.1 == ("agent"@) {
                        agent_pack_names()
                    } else {
                        remote_pack_names()
                    })
                }
            },
        },
{
    let (scheme, pack, _profile) = match parse_url(url) {
        Ok(p) => p,
        Err(e) => {
            return Err(e);
        },
    };
    if !str_eq(scheme.as_str(), "sqlite") {
        return Err(Error::invalid(SUB_BAD_SCHEME, "unknown connection scheme".to_owned()));
    }
    let mut registry = Register::new();
    if str_eq(pack.as_str(), "agent") {
        if let Err(e) = register_ds(&mut registry) {
            return Err(e);
        }
        proof {
            assert(registry.names() =~= agent_pack_names());
        }
    } else if str_eq(pack.as_str(), "remote") {
        if let Err(e) = register_remote(&mut registry) {
            return Err(e);
        }
        proof {
            assert(registry.names() =~= remote_pack_names());
        }
    } else {
        return Err(Error::invalid(SUB_BAD_PACK, "unknown data-source pack".to_owned()));
    }
    let engine = match engine_open() {
        Ok(c) => c,
        Err(e) => {
            return Err(error_from_engine(&e));
        },
    };
    engine_set_cache_capacity(&engine, 0);
    Ok(Connection { engine, registry })
}

} // verus!
