//! The consumer side of one stream: await the schema, then pull rows
//! until a terminal event, the channel closing, or the per-statement
//! timeout.
use vstd::prelude::*;
use std::sync::mpsc::Receiver;
use crate::channel::{RecvOutcome, new_state_channel, recv_state, recv_state_timeout};
use crate::error::{Error, spec_code, BASE_INVALID, BASE_IO_TIMEOUT};
use crate::request::{Request, channel_closed_code};
use crate::state::{State, StateModel};
use crate::table::{Args, Columns, Row};
use crate::value::ValueModel;

verus! {

/// How many events the bounded channel holds before the producer blocks.
pub const CHANNEL_CAPACITY: usize = 64;

/// Subcode of the invalid kind for a stream that broke its protocol:
/// a row or a second schema before the schema, or an end without one.
pub const SUB_PROTOCOL: i32 = 2;

/// The consumer end of one statement, with its timeout. Zero means no
/// timeout.
#[derive(Debug)]
pub struct Response {
    rx: Receiver<State>,
    timeout_ms: u64,
}

/// A prepared statement is consumed through its `Response`.
pub type Statement = Response;

/// A fresh producer/consumer pair over a bounded channel; the consumer
/// enforces the given timeout in milliseconds, zero meaning none.
pub fn new_req(args: Args, timeout_ms: u64) -> (r: (Request, Response))
    ensures
        r.0.inv(),
        !r.0.is_done(),
        !r.0.has_ready(),
        r.0.sent() == Seq::<StateModel>::empty(),
        r.0.args_model() == args@,
        r.1.timeout() == timeout_ms,
{
    let (tx, rx) = new_state_channel(CHANNEL_CAPACITY);
    (Request::new(args, tx), Response { rx, timeout_ms })
}

/// A fresh producer/consumer pair without a timeout.
pub fn new_req_none(args: Args) -> (r: (Request, Response))
    ensures
        r.0.inv(),
        !r.0.is_done(),
        !r.0.has_ready(),
        r.0.sent() == Seq::<StateModel>::empty(),
        r.0.args_model() == args@,
        r.1.timeout() == 0,
{
    new_req(args, 0)
}

/// What the first received event decides: the schema on `Ready`; the
/// error itself on a failure terminal; a timeout, broken-channel or
/// protocol error otherwise.
pub fn wait_decision(o: RecvOutcome) -> (r: Result<Columns, Error>)
    ensures
        match o {
            RecvOutcome::Event(s) => match s@ {
                StateModel::Ready(cols) => r matches Ok(c) && c@ == cols,
                StateModel::Fail(e) => r matches Err(err) && err@ == e,
                StateModel::Process(_) => r matches Err(err) && err@.code == spec_code(
                    BASE_INVALID as int,
                    SUB_PROTOCOL as int,
                ),
                StateModel::End => r matches Err(err) && err@.code == spec_code(
                    BASE_INVALID as int,
                    SUB_PROTOCOL as int,
                ),
            },
            RecvOutcome::TimedOut => r matches Err(err) && err@.code == spec_code(
                BASE_IO_TIMEOUT as int,
                0,
            ),
            RecvOutcome::Closed => r matches Err(err) && err@.code == channel_closed_code(),
        },
{
    match o {
        RecvOutcome::Event(State::Ready(c)) => Ok(c),
        RecvOutcome::Event(State::Fail(e)) => Err(e),
        RecvOutcome::Event(State::Process(_)) => Err(
            Error::invalid(SUB_PROTOCOL, "a row arrived before the schema".to_owned()),
        ),
        RecvOutcome::Event(State::End) => Err(
            Error::invalid(SUB_PROTOCOL, "the stream ended before the schema".to_owned()),
        ),
        RecvOutcome::TimedOut => Err(
            Error::io_timeout("no event arrived within the statement timeout".to_owned()),
        ),
        RecvOutcome::Closed => Err(
            Error::other(
                crate::request::SUB_CHANNEL_CLOSED,
                "the producer end of the stream is gone".to_owned(),
            ),
        ),
    }
}

/// One pulled step of row iteration.
pub enum RowStep {
    /// One row.
    Value(Row),
    /// Iteration ended successfully.
    Finished,
    /// Iteration ended with this error.
    Failed(Error),
}

/// What one received event decides during row iteration: the row on
/// `Process`; a successful end on the end terminal; the error itself on a
/// failure terminal; a timeout, broken-channel or protocol error
/// otherwise.
pub fn row_decision(o: RecvOutcome) -> (r: RowStep)
    ensures
        match o {
            RecvOutcome::Event(s) => match s@ {
                StateModel::Process(row) => r matches RowStep::Value(v) && v@ == row,
                StateModel::End => r is Finished,
                StateModel::Fail(e) => r matches RowStep::Failed(err) && err@ == e,
                StateModel::Ready(_) => r matches RowStep::Failed(err) && err@.code == spec_code(
                    BASE_INVALID as int,
                    SUB_PROTOCOL as int,
                ),
            },
            RecvOutcome::TimedOut => r matches RowStep::Failed(err) && err@.code == spec_code(
                BASE_IO_TIMEOUT as int,
                0,
            ),
            RecvOutcome::Closed => r matches RowStep::Failed(err) && err@.code
                == channel_closed_code(),
        },
{
    match o {
        RecvOutcome::Event(State::Process(row)) => RowStep::Value(row),
        RecvOutcome::Event(State::End) => RowStep::Finished,
        RecvOutcome::Event(State::Fail(e)) => RowStep::Failed(e),
        RecvOutcome::Event(State::Ready(_)) => RowStep::Failed(
            Error::invalid(SUB_PROTOCOL, "a second schema arrived on the stream".to_owned()),
        ),
        RecvOutcome::TimedOut => RowStep::Failed(
            Error::io_timeout("no event arrived within the statement timeout".to_owned()),
        ),
        RecvOutcome::Closed => RowStep::Failed(
            Error::other(
                crate::request::SUB_CHANNEL_CLOSED,
                "the producer end of the stream is gone".to_owned(),
            ),
        ),
    }
}

impl Response {
    /// The configured timeout in milliseconds; zero means none.
    pub closed spec fn timeout(&self) -> u64 {
        self.timeout_ms
    }

    /// Await the first event: the schema, or the error that arrived in
    /// its place, judged by `wait_decision`.
    pub fn wait(self) -> (r: Result<RowSet, Error>)
        ensures
            r matches Ok(rs) ==> rs.timeout() == self.timeout(),
    {
        let o = if self.timeout_ms == 0 {
            recv_state(&self.rx)
        } else {
            recv_state_timeout(&self.rx, self.timeout_ms)
        };
        match wait_decision(o) {
            Ok(columns) => Ok(
                RowSet { rx: self.rx, timeout_ms: self.timeout_ms, columns, finished: false },
            ),
            Err(e) => Err(e),
        }
    }
}

/// The rows of a stream after its schema arrived.
#[derive(Debug)]
pub struct RowSet {
    rx: Receiver<State>,
    timeout_ms: u64,
    columns: Columns,
    finished: bool,
}

impl RowSet {
    /// The configured timeout in milliseconds; zero means none.
    pub closed spec fn timeout(&self) -> u64 {
        self.timeout_ms
    }

    /// Whether iteration has ended.
    pub closed spec fn is_finished(&self) -> bool {
        self.finished
    }

    /// The published schema.
    pub closed spec fn cols(&self) -> Seq<(Seq<char>, crate::value::DataType)> {
        self.columns@
    }

    /// The published schema.
    pub fn columns(&self) -> (c: &Columns)
        ensures
            c@ == self.cols(),
    {
        &self.columns
    }

    /// Pull the next row: `None` once the stream ended successfully or an
    /// error was already yielded; each received event is judged by
    /// `row_decision`, and a yielded error ends iteration.
    pub fn next_row(&mut self) -> (r: Option<Result<Row, Error>>)
        ensures
            final(self).timeout() == old(self).timeout(),
            final(self).cols() == old(self).cols(),
            old(self).is_finished() ==> r is None && final(self).is_finished(),
            r is None ==> final(self).is_finished(),
            r matches Some(res) && res is Err ==> final(self).is_finished(),
    {
        if self.finished {
            return None;
        }
        let o = if self.timeout_ms == 0 {
            recv_state(&self.rx)
        } else {
            recv_state_timeout(&self.rx, self.timeout_ms)
        };
        match row_decision(o) {
            RowStep::Value(row) => Some(Ok(row)),
            RowStep::Finished => {
                self.finished = true;
                None
            },
            RowStep::Failed(e) => {
                self.finished = true;
                Some(Err(e))
            },
        }
    }
}

} // verus!
