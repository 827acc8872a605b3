//! The producer side of one stream: a `Request` owns the sending end and
//! publishes events; a `Committer` validates rows against a published
//! schema; a `Promise` commits typed records whose schema is static.
//!
//! A ghost history records every event delivered to the channel, so that
//! each producer run provably emits a well-formed stream: one `Ready`
//! first, rows valid against it, one terminal event last.
use vstd::prelude::*;
use std::sync::mpsc::SyncSender;
use crate::channel::send_state;
use crate::error::{Error, spec_code, BASE_OTHER, BASE_INVALID_TYPE};
use crate::state::{
    State,
    StateModel,
    ToData,
    is_terminal,
    stream_complete,
    stream_wf_prefix,
};
use crate::table::{Args, Columns, Row, spec_row_valid, valid_row};
use crate::value::{DataType, Value, ValueModel, spec_type_of};

verus! {

/// Subcode of the catch-all kind used when the consumer is gone and a
/// send fails.
pub const SUB_CHANNEL_CLOSED: i32 = 1;

/// The code of the error returned when the consumer is gone.
pub open spec fn channel_closed_code() -> int {
    spec_code(BASE_OTHER as int, SUB_CHANNEL_CLOSED as int)
}

/// The values of a named row.
pub open spec fn named_row_values(r: Seq<(String, Value)>) -> Seq<ValueModel> {
    Seq::new(r.len(), |i: int| r[i].1@)
}

/// The schema derived from a named row: each value's name and type.
pub open spec fn named_row_columns(r: Seq<(String, Value)>) -> Seq<(Seq<char>, DataType)> {
    Seq::new(r.len(), |i: int| (r[i].0@, spec_type_of(r[i].1@)))
}

/// Every request upholding its invariant has delivered a complete
/// well-formed stream once done, and a well-formed unfinished one before.
pub proof fn lemma_request_inv(r: &Request)
    requires
        r.inv(),
    ensures
        r.is_done() ==> stream_complete(r.sent()),
        !r.is_done() ==> stream_wf_prefix(r.sent()),
        r.has_ready() <==> (r.sent().len() > 0 && r.sent()[0] is Ready),
        !r.has_ready() && !r.is_done() ==> r.sent() == Seq::<StateModel>::empty(),
{
    if !r.has_ready() && !r.is_done() {
        assert(r.sent() =~= Seq::<StateModel>::empty());
    }
}

/// The producer end of one stream.
pub struct Request {
    args: Args,
    tx: SyncSender<State>,
    has_columns: bool,
    done: bool,
    hist: Ghost<Seq<StateModel>>,
}

impl Request {
    /// Every event delivered to the channel so far, in order.
    pub closed spec fn sent(&self) -> Seq<StateModel> {
        self.hist@
    }

    /// Whether the schema has been published.
    pub closed spec fn has_ready(&self) -> bool {
        self.has_columns
    }

    /// Whether a terminal event has been published.
    pub closed spec fn is_done(&self) -> bool {
        self.done
    }

    /// The published schema.
    pub open spec fn ready_cols(&self) -> Seq<(Seq<char>, DataType)>
        recommends
            self.has_ready(),
    {
        self.sent()[0]->Ready_0
    }

    /// The arguments of the call.
    pub closed spec fn args_model(&self) -> Seq<ValueModel> {
        self.args@
    }

    /// The delivered events always form a well-formed stream: unfinished
    /// while no terminal was sent, complete afterwards; the schema flag
    /// tracks whether a `Ready` leads the stream.
    pub closed spec fn inv(&self) -> bool {
        &&& if self.done {
            stream_complete(self.hist@)
        } else {
            stream_wf_prefix(self.hist@)
        }
        &&& self.has_columns <==> (self.hist@.len() > 0 && self.hist@[0] is Ready)
        &&& !self.has_columns ==> self.hist@ =~= Seq::<StateModel>::empty() || (self.done
            && self.hist@.len() == 1)
    }

    /// A fresh producer end over a sending handle; nothing published yet.
    pub fn new(args: Args, tx: SyncSender<State>) -> (r: Request)
        ensures
            r.inv(),
            !r.is_done(),
            !r.has_ready(),
            r.sent() == Seq::<StateModel>::empty(),
            r.args_model() == args@,
    {
        Request { args, tx, has_columns: false, done: false, hist: Ghost(Seq::empty()) }
    }

    /// The arguments of the call.
    pub fn get_args(&self) -> (a: &Args)
        ensures
            a@ == self.args_model(),
    {
        &self.args
    }

    /// Whether the schema has been published.
    pub fn published(&self) -> (b: bool)
        ensures
            b == self.has_ready(),
    {
        self.has_columns
    }

    /// Whether a terminal event has been published.
    pub fn finished(&self) -> (b: bool)
        ensures
            b == self.is_done(),
    {
        self.done
    }

    /// Deliver one event; the caller has established that the extended
    /// history is still well formed.
    fn send_event(&mut self, s: State) -> (r: Result<(), Error>)
        requires
            old(self).inv(),
            !old(self).is_done(),
            !(s@ is Ready) || !old(self).has_ready(),
            is_terminal(s@) ==> stream_complete(old(self).sent().push(s@)),
            !is_terminal(s@) ==> stream_wf_prefix(old(self).sent().push(s@)),
        ensures
            final(self).inv(),
            final(self).args_model() == old(self).args_model(),
            match r {
                Ok(()) => {
                    &&& final(self).sent() == old(self).sent().push(s@)
                    &&& final(self).is_done() == is_terminal(s@)
                    &&& final(self).has_ready() == (old(self).has_ready() || s@ is Ready)
                },
                Err(e) => {
                    &&& final(self).sent() == old(self).sent()
                    &&& final(self).is_done() == old(self).is_done()
                    &&& final(self).has_ready() == old(self).has_ready()
                    &&& e@.code == channel_closed_code()
                },
            },
    {
        let ghost model = s@;
        let terminal = match &s {
            State::Fail(_) => true,
            State::End => true,
            _ => false,
        };
        let ready = match &s {
            State::Ready(_) => true,
            _ => false,
        };
        match send_state(&self.tx, s) {
            Ok(()) => {
                proof {
                    self.hist@ = self.hist@.push(model);
                }
                if terminal {
                    self.done = true;
                }
                if ready {
                    self.has_columns = true;
                }
                proof {
                    if !self.done {
                        assert(stream_wf_prefix(self.hist@));
                    }
                    if self.has_columns {
                        assert(self.hist@[0] is Ready);
                    }
                }
                Ok(())
            },
            Err(_) => Err(
                Error::other(SUB_CHANNEL_CLOSED, "the consumer end of the stream is gone".to_owned()),
            ),
        }
    }

    /// Publish the schema and return a committer bound to it. Fails only
    /// when the consumer is gone.
    pub fn new_commit(&mut self, columns: Columns) -> (r: Result<Committer, Error>)
        requires
            old(self).inv(),
            !old(self).is_done(),
            !old(self).has_ready(),
        ensures
            final(self).inv(),
            final(self).args_model() == old(self).args_model(),
            !final(self).is_done(),
            match r {
                Ok(c) => {
                    &&& final(self).sent() == old(self).sent().push(StateModel::Ready(columns@))
                    &&& final(self).has_ready()
                    &&& final(self).ready_cols() == columns@
                    &&& c.columns@ == columns@
                },
                Err(e) => {
                    &&& final(self).sent() == old(self).sent()
                    &&& !final(self).has_ready()
                    &&& e@.code == channel_closed_code()
                },
            },
    {
        proof {
            assert(old(self).sent() =~= Seq::<StateModel>::empty());
            assert(old(self).sent().push(StateModel::Ready(columns@))[0] is Ready);
        }
        let dup = columns.duplicate();
        match self.send_event(State::Ready(dup)) {
            Ok(()) => Ok(Committer { columns }),
            Err(e) => Err(e),
        }
    }

    /// Commit one named row. The first call derives the schema from the
    /// row's names and types and publishes it before the row; later calls
    /// publish the row alone, and each later row must conform to the
    /// schema the first row defined.
    pub fn commit(&mut self, row: Vec<(String, Value)>) -> (r: Result<(), Error>)
        requires
            old(self).inv(),
            !old(self).is_done(),
            old(self).has_ready() ==> spec_row_valid(
                named_row_values(row@),
                old(self).ready_cols(),
            ),
        ensures
            final(self).inv(),
            !final(self).is_done(),
            final(self).args_model() == old(self).args_model(),
            match r {
                Ok(()) => {
                    &&& final(self).has_ready()
                    &&& if old(self).has_ready() {
                        final(self).sent() == old(self).sent().push(
                            StateModel::Process(named_row_values(row@)),
                        )
                    } else {
                        final(self).sent() == old(self).sent().push(
                            StateModel::Ready(named_row_columns(row@)),
                        ).push(StateModel::Process(named_row_values(row@)))
                    }
                },
                Err(e) => {
                    &&& e@.code == channel_closed_code()
                    &&& (final(self).sent() == old(self).sent() || final(self).sent() == old(self).sent().push(
                        StateModel::Ready(named_row_columns(row@)),
                    ))
                },
            },
    {
        let ghost named = row@;
        let mut new_row = Row::new();
        let mut columns = Columns::new();
        let mut i: usize = 0;
        while i < row.len()
            invariant
                i <= row@.len(),
                row@ == named,
                new_row@ =~= named_row_values(named).take(i as int),
                columns@ =~= named_row_columns(named).take(i as int),
            decreases row@.len() - i,
        {
            let (name, value) = &row[i];
            columns.push(name.as_str(), value.get_type());
            new_row.push(value.duplicate());
            i = i + 1;
            proof {
                assert(new_row@ =~= named_row_values(named).take(i as int));
                assert(columns@ =~= named_row_columns(named).take(i as int));
            }
        }
        proof {
            assert(new_row@ =~= named_row_values(named));
            assert(columns@ =~= named_row_columns(named));
            assert(spec_row_valid(named_row_values(named), named_row_columns(named)));
        }
        if !self.has_columns {
            proof {
                assert(old(self).sent() =~= Seq::<StateModel>::empty());
            }
            match self.send_event(State::Ready(columns)) {
                Ok(()) => {},
                Err(e) => {
                    return Err(e);
                },
            }
        }
        proof {
            assert(self.sent()[0] is Ready);
            assert(spec_row_valid(new_row@, self.ready_cols()));
            assert(stream_wf_prefix(self.sent().push(StateModel::Process(new_row@))));
        }
        match self.send_event(State::Process(new_row)) {
            Ok(()) => Ok(()),
            Err(e) => Err(e),
        }
    }

    /// Publish the schema of a typed record and return a promise for it.
    pub fn head<T: ToData>(&mut self) -> (r: Result<Promise<T>, Error>)
        requires
            old(self).inv(),
            !old(self).is_done(),
            !old(self).has_ready(),
        ensures
            final(self).inv(),
            final(self).args_model() == old(self).args_model(),
            !final(self).is_done(),
            match r {
                Ok(p) => {
                    &&& final(self).sent() == old(self).sent().push(StateModel::Ready(T::spec_columns()))
                    &&& final(self).has_ready()
                    &&& p.wf()
                },
                Err(e) => {
                    &&& final(self).sent() == old(self).sent()
                    &&& !final(self).has_ready()
                    &&& e@.code == channel_closed_code()
                },
            },
    {
        let columns = T::columns();
        match self.new_commit(columns) {
            Ok(inner) => Ok(Promise { inner, record: None }),
            Err(e) => Err(e),
        }
    }

    /// Publish the failure terminal. Fails only when the consumer is gone.
    pub fn error(&mut self, err: Error) -> (r: Result<(), Error>)
        requires
            old(self).inv(),
            !old(self).is_done(),
        ensures
            final(self).inv(),
            final(self).args_model() == old(self).args_model(),
            match r {
                Ok(()) => {
                    &&& final(self).sent() == old(self).sent().push(StateModel::Fail(err@))
                    &&& final(self).is_done()
                    &&& stream_complete(final(self).sent())
                },
                Err(e) => {
                    &&& final(self).sent() == old(self).sent()
                    &&& !final(self).is_done()
                    &&& e@.code == channel_closed_code()
                },
            },
    {
        proof {
            let pushed = old(self).sent().push(StateModel::Fail(err@));
            assert(pushed.drop_last() =~= old(self).sent());
        }
        self.send_event(State::Fail(err))
    }

    /// Publish the successful-completion terminal; the schema must have
    /// been published first. Fails only when the consumer is gone.
    pub fn ok(&mut self) -> (r: Result<(), Error>)
        requires
            old(self).inv(),
            !old(self).is_done(),
            old(self).has_ready(),
        ensures
            final(self).inv(),
            final(self).args_model() == old(self).args_model(),
            match r {
                Ok(()) => {
                    &&& final(self).sent() == old(self).sent().push(StateModel::End)
                    &&& final(self).is_done()
                    &&& stream_complete(final(self).sent())
                },
                Err(e) => {
                    &&& final(self).sent() == old(self).sent()
                    &&& !final(self).is_done()
                    &&& e@.code == channel_closed_code()
                },
            },
    {
        proof {
            let pushed = old(self).sent().push(StateModel::End);
            assert(pushed.drop_last() =~= old(self).sent());
            assert(pushed[0] is Ready);
        }
        self.send_event(State::End)
    }
}

/// A producer handle bound to a published schema; rows committed through
/// it are validated against that schema before they enter the channel.
#[derive(Debug)]
pub struct Committer {
    /// The schema the committer validates against.
    pub columns: Columns,
}

impl Committer {
    /// Commit one event on the request this committer was created from.
    /// A row that does not validate against the schema is rejected with
    /// an invalid-type error before it enters the channel; terminal
    /// events pass through unvalidated.
    pub fn commit(&self, req: &mut Request, state: State) -> (r: Result<(), Error>)
        requires
            old(req).inv(),
            !old(req).is_done(),
            old(req).has_ready(),
            old(req).ready_cols() == self.columns@,
            !(state@ is Ready),
        ensures
            final(req).inv(),
            final(req).args_model() == old(req).args_model(),
            final(req).has_ready(),
            final(req).ready_cols() == old(req).ready_cols(),
            match r {
                Ok(()) => {
                    &&& final(req).sent() == old(req).sent().push(state@)
                    &&& final(req).is_done() == is_terminal(state@)
                    &&& (state@ matches StateModel::Process(row) ==> spec_row_valid(
                        row,
                        self.columns@,
                    ))
                },
                Err(e) => {
                    &&& final(req).sent() == old(req).sent()
                    &&& !final(req).is_done()
                    &&& (if (state@ matches StateModel::Process(row) && !spec_row_valid(
                        row,
                        self.columns@,
                    )) {
                        e@.code == spec_code(BASE_INVALID_TYPE as int, 0)
                    } else {
                        e@.code == channel_closed_code()
                    })
                },
            },
    {
        if let State::Process(row) = &state {
            match valid_row(&self.columns, row) {
                Ok(()) => {},
                Err(_) => {
                    return Err(
                        Error::invalid_type(
                            "invalid row: it does not validate against the committed schema".to_owned(),
                        ),
                    );
                },
            }
        }
        proof {
            if state@ is Process {
                assert(stream_wf_prefix(old(req).sent().push(state@)));
            }
            if is_terminal(state@) {
                let pushed = old(req).sent().push(state@);
                assert(pushed.drop_last() =~= old(req).sent());
                assert(pushed[0] is Ready);
            }
        }
        req.send_event(state)
    }

    /// The arguments of the call the committer belongs to.
    pub fn get_args<'a>(&self, req: &'a Request) -> (a: &'a Args)
        ensures
            a@ == req.args_model(),
    {
        req.get_args()
    }
}

/// A producer handle for typed records: every committed record's row
/// matches the record type's schema by construction.
pub struct Promise<T> {
    inner: Committer,
    record: Option<T>,
}

impl<T: ToData> Promise<T> {
    /// The promise validates against its record type's schema.
    pub closed spec fn wf(&self) -> bool {
        self.inner.columns@ == T::spec_columns()
    }

    /// Commit one typed record. Fails only when the consumer is gone:
    /// the record's row always validates against the schema.
    pub fn commit(&self, req: &mut Request, value: T) -> (r: Result<(), Error>)
        requires
            self.wf(),
            old(req).inv(),
            !old(req).is_done(),
            old(req).has_ready(),
            old(req).ready_cols() == T::spec_columns(),
        ensures
            final(req).inv(),
            final(req).args_model() == old(req).args_model(),
            final(req).has_ready(),
            final(req).ready_cols() == old(req).ready_cols(),
            !final(req).is_done(),
            match r {
                Ok(()) => final(req).sent() == old(req).sent().push(
                    StateModel::Process(value.spec_row()),
                ),
                Err(e) => final(req).sent() == old(req).sent() && e@.code == channel_closed_code(),
            },
    {
        let row = value.to_row();
        self.inner.commit(req, State::Process(row))
    }

    /// Commit the failure terminal.
    pub fn commit_error(&self, req: &mut Request, err: Error) -> (r: Result<(), Error>)
        requires
            self.wf(),
            old(req).inv(),
            !old(req).is_done(),
            old(req).has_ready(),
            old(req).ready_cols() == T::spec_columns(),
        ensures
            final(req).inv(),
            final(req).args_model() == old(req).args_model(),
            match r {
                Ok(()) => final(req).sent() == old(req).sent().push(StateModel::Fail(err@))
                    && final(req).is_done(),
                Err(e) => final(req).sent() == old(req).sent() && !final(req).is_done() && e@.code
                    == channel_closed_code(),
            },
    {
        self.inner.commit(req, State::Fail(err))
    }

    /// The arguments of the call the promise belongs to.
    pub fn get_args<'a>(&self, req: &'a Request) -> (a: &'a Args)
        ensures
            a@ == req.args_model(),
    {
        req.get_args()
    }
}

} // verus!
