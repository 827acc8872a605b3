//! Pipeline events and stream well-formedness.
//!
//! One stream carries: a `Ready` with the column schema first, then any
//! number of `Process` rows each valid against that schema, and exactly
//! one terminal event — `Fail` with an error (which may also arrive
//! before `Ready`) or `End` for successful completion. Nothing follows a
//! terminal event.
use vstd::prelude::*;
use crate::value::{DataType, ValueModel};
use crate::table::{Columns, Row, spec_row_valid};
use crate::error::{Error, ErrorModel};

verus! {

/// One event on a stream.
#[derive(Debug)]
pub enum State {
    /// The column schema; first on the stream, exactly once.
    Ready(Columns),
    /// One row, valid against the schema.
    Process(Row),
    /// Terminal failure; may arrive before `Ready`.
    Fail(Error),
    /// Terminal successful completion.
    End,
}

/// Mathematical model of one event.
pub enum StateModel {
    Ready(Seq<(Seq<char>, DataType)>),
    Process(Seq<ValueModel>),
    Fail(ErrorModel),
    End,
}

impl View for State {
    type V = StateModel;

    open spec fn view(&self) -> StateModel {
        match self {
            State::Ready(c) => StateModel::Ready(c@),
            State::Process(r) => StateModel::Process(r@),
            State::Fail(e) => StateModel::Fail(e@),
            State::End => StateModel::End,
        }
    }
}

/// A trait for everything that converts into one stream event.
pub trait IntoState: Sized {
    /// The event this value stands for.
    spec fn state_model(&self) -> StateModel;

    /// Convert into the event.
    fn into_state(self) -> (s: State)
        ensures
            s@ == self.state_model(),
    ;
}

impl IntoState for Columns {
    open spec fn state_model(&self) -> StateModel {
        StateModel::Ready(self@)
    }

    fn into_state(self) -> (s: State) {
        State::Ready(self)
    }
}

impl IntoState for Row {
    open spec fn state_model(&self) -> StateModel {
        StateModel::Process(self@)
    }

    fn into_state(self) -> (s: State) {
        State::Process(self)
    }
}

impl IntoState for Error {
    open spec fn state_model(&self) -> StateModel {
        StateModel::Fail(self@)
    }

    fn into_state(self) -> (s: State) {
        State::Fail(self)
    }
}

impl IntoState for Result<State, Error> {
    open spec fn state_model(&self) -> StateModel {
        match self {
            Ok(s) => s@,
            Err(e) => StateModel::Fail(e@),
        }
    }

    fn into_state(self) -> (s: State) {
        match self {
            Ok(s) => s,
            Err(e) => State::Fail(e),
        }
    }
}

impl State {
    /// The event a value stands for.
    pub fn from<T: IntoState>(value: T) -> (s: State)
        ensures
            s@ == value.state_model(),
    {
        value.into_state()
    }

    /// The successful-completion terminal event.
    pub fn ok() -> (s: State)
        ensures
            s@ is End,
    {
        State::End
    }

    /// Whether this is the successful-completion terminal.
    pub fn is_ok(&self) -> (r: bool)
        ensures
            r == (self@ is End),
    {
        match self {
            State::End => true,
            _ => false,
        }
    }

    /// Whether this is the schema event.
    pub fn is_ready(&self) -> (r: bool)
        ensures
            r == (self@ is Ready),
    {
        match self {
            State::Ready(_) => true,
            _ => false,
        }
    }

    /// Whether this is a row event.
    pub fn is_process(&self) -> (r: bool)
        ensures
            r == (self@ is Process),
    {
        match self {
            State::Process(_) => true,
            _ => false,
        }
    }

    /// Whether this is the failure terminal.
    pub fn is_err(&self) -> (r: bool)
        ensures
            r == (self@ is Fail),
    {
        match self {
            State::Fail(_) => true,
            _ => false,
        }
    }
}

impl PartialEq for State {
    fn eq(&self, other: &State) -> (r: bool) {
        match (self, other) {
            (State::Ready(a), State::Ready(b)) => a.eq(b),
            (State::Process(a), State::Process(b)) => a.eq(b),
            (State::Fail(a), State::Fail(b)) => a.eq(b),
            (State::End, State::End) => true,
            _ => false,
        }
    }
}

impl vstd::std_specs::cmp::PartialEqSpecImpl for State {
    open spec fn obeys_eq_spec() -> bool {
        true
    }

    open spec fn eq_spec(&self, other: &State) -> bool {
        self@ == other@
    }
}

/// A typed record with a statically known schema.
pub trait ToData: Sized {
    /// The schema of the record type.
    spec fn spec_columns() -> Seq<(Seq<char>, DataType)>;

    /// The row a record converts to.
    spec fn spec_row(&self) -> Seq<ValueModel>;

    /// The schema of the record type.
    fn columns() -> (c: Columns)
        ensures
            c@ == Self::spec_columns(),
    ;

    /// Convert a record into its row; the row is valid against the
    /// record's schema for every record.
    fn to_row(self) -> (r: Row)
        ensures
            r@ == self.spec_row(),
            spec_row_valid(r@, Self::spec_columns()),
    ;
}

/// Whether an event is terminal.
pub open spec fn is_terminal(s: StateModel) -> bool {
    s is Fail || s is End
}

/// The number of schema events on a stream.
pub open spec fn count_ready(s: Seq<StateModel>) -> int
    decreases s.len(),
{
    if s.len() == 0 {
        0
    } else {
        count_ready(s.drop_last()) + if s.last() is Ready {
            1int
        } else {
            0int
        }
    }
}

/// The number of terminal events on a stream.
pub open spec fn count_terminal(s: Seq<StateModel>) -> int
    decreases s.len(),
{
    if s.len() == 0 {
        0
    } else {
        count_terminal(s.drop_last()) + if is_terminal(s.last()) {
            1int
        } else {
            0int
        }
    }
}

/// A well-formed unfinished stream: no terminal yet, at most one `Ready`
/// and only as the first event, and every row after the `Ready` and valid
/// against it.
pub open spec fn stream_wf_prefix(s: Seq<StateModel>) -> bool {
    &&& forall|i: int| 0 <= i < s.len() ==> !is_terminal(#[trigger] s[i])
    &&& forall|i: int| 0 <= i < s.len() && (#[trigger] s[i]) is Ready ==> i == 0
    &&& forall|i: int|
        0 <= i < s.len() ==> ((#[trigger] s[i]) matches StateModel::Process(row) ==> (i > 0 && (
        s[0] matches StateModel::Ready(cols) && spec_row_valid(row, cols))))
}

/// A complete stream: a well-formed prefix followed by exactly one
/// terminal event; a successful stream published its schema first.
pub open spec fn stream_complete(s: Seq<StateModel>) -> bool {
    &&& s.len() >= 1
    &&& is_terminal(s.last())
    &&& stream_wf_prefix(s.drop_last())
    &&& (s.last() is End ==> s.len() >= 2 && s[0] is Ready)
}

/// A stream without terminal events has a terminal count of zero.
proof fn lemma_count_terminal_zero(s: Seq<StateModel>)
    requires
        forall|i: int| 0 <= i < s.len() ==> !is_terminal(#[trigger] s[i]),
    ensures
        count_terminal(s) == 0,
    decreases s.len(),
{
    if s.len() > 0 {
        lemma_count_terminal_zero(s.drop_last());
    }
}

/// A stream whose only `Ready` can be its first event has at most one;
/// if the first event is a `Ready`, exactly one.
proof fn lemma_count_ready_first(s: Seq<StateModel>)
    requires
        forall|i: int| 0 <= i < s.len() && (#[trigger] s[i]) is Ready ==> i == 0,
    ensures
        count_ready(s) <= 1,
        s.len() > 0 && s[0] is Ready ==> count_ready(s) == 1,
        s.len() > 0 && !(s[0] is Ready) ==> count_ready(s) == 0,
    decreases s.len(),
{
    if s.len() > 0 {
        lemma_count_ready_first(s.drop_last());
    }
}

/// Every complete stream carries exactly one terminal event, it stands
/// last, and a successfully completed stream carries exactly one `Ready`;
/// no stream carries more than one `Ready`.
pub proof fn lemma_stream_single_terminal(s: Seq<StateModel>)
    requires
        stream_complete(s),
    ensures
        count_terminal(s) == 1,
        is_terminal(s.last()),
        forall|i: int| 0 <= i < s.len() - 1 ==> !is_terminal(#[trigger] s[i]),
        count_ready(s) <= 1,
        s.last() is End ==> count_ready(s) == 1,
{
    lemma_count_terminal_zero(s.drop_last());
    assert forall|i: int| 0 <= i < s.len() - 1 implies !is_terminal(#[trigger] s[i]) by {
        assert(s[i] == s.drop_last()[i]);
    }
    assert(count_terminal(s) == count_terminal(s.drop_last()) + 1);
    lemma_count_ready_first(s.drop_last());
    assert(!(s.last() is Ready));
    assert(count_ready(s) == count_ready(s.drop_last()));
    if s.last() is End {
        assert(s.drop_last()[0] is Ready);
    }
}

/// Every row on a complete stream was published after the schema and is
/// valid against it.
pub proof fn lemma_stream_rows_validate(s: Seq<StateModel>, i: int)
    requires
        stream_complete(s),
        0 <= i < s.len(),
        s[i] is Process,
    ensures
        i > 0,
        s[0] is Ready,
        s[i] matches StateModel::Process(row) ==> (s[0] matches StateModel::Ready(cols)
            && spec_row_valid(row, cols)),
{
    assert(!is_terminal(s[i]));
    assert(i < s.len() - 1 || i == s.len() - 1);
    assert(s.drop_last()[i] == s[i]);
    assert(s.drop_last()[0] == s[0]);
}

} // verus!
