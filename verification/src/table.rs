//! Tabular primitives: ordered column schemas, rows of values, and the
//! argument lists handed to data sources, with row-against-schema
//! validation.
//!
//! A row is valid against a schema when it has the same length and each
//! value is either `Nil` or of the column's declared type; position is
//! authoritative, names need not be unique.
use vstd::prelude::*;
use crate::text::{spec_digits, string_from_chars, to_decimal};
use crate::value::{DataType, Value, ValueModel, spec_type_of, spec_type_text, type_text};
use crate::error::{Error, ErrorModel, code_of, spec_code, BASE_INDEX_PARAM, BASE_INVALID_TYPE};

verus! {

/// An ordered sequence of `(name, type)` column descriptors.
#[derive(Debug)]
pub struct Columns {
    values: Vec<(String, DataType)>,
}

impl View for Columns {
    type V = Seq<(Seq<char>, DataType)>;

    closed spec fn view(&self) -> Seq<(Seq<char>, DataType)> {
        Seq::new(self.values@.len(), |i: int| (self.values@[i].0@, self.values@[i].1))
    }
}

impl Columns {
    /// An empty schema.
    pub fn new() -> (c: Columns)
        ensures
            c@ == Seq::<(Seq<char>, DataType)>::empty(),
    {
        let c = Columns { values: Vec::new() };
        proof {
            assert(c@ =~= Seq::<(Seq<char>, DataType)>::empty());
        }
        c
    }

    /// Append one column.
    pub fn push(&mut self, name: &str, dtype: DataType)
        ensures
            final(self)@ == old(self)@.push((name@, dtype)),
    {
        self.values.push((name.to_owned(), dtype));
        proof {
            assert(self@ =~= old(self)@.push((name@, dtype)));
        }
    }

    /// The number of columns.
    pub fn len(&self) -> (n: usize)
        ensures
            n == self@.len(),
    {
        self.values.len()
    }

    /// The name of the column at a position.
    pub fn name_at(&self, i: usize) -> (n: &String)
        requires
            i < self@.len(),
        ensures
            n@ == self@[i as int].0,
    {
        &self.values[i].0
    }

    /// The type of the column at a position.
    pub fn type_at(&self, i: usize) -> (t: DataType)
        requires
            i < self@.len(),
        ensures
            t == self@[i as int].1,
    {
        self.values[i].1
    }

    /// A schema equal to this one.
    pub fn duplicate(&self) -> (c: Columns)
        ensures
            c@ == self@,
    {
        let mut values: Vec<(String, DataType)> = Vec::new();
        let mut i: usize = 0;
        while i < self.values.len()
            invariant
                i <= self.values@.len(),
                values@.len() == i,
                forall|j: int|
                    0 <= j < i ==> values@[j].0@ == self.values@[j].0@ && values@[j].1
                        == self.values@[j].1,
            decreases self.values@.len() - i,
        {
            values.push((self.values[i].0.clone(), self.values[i].1));
            i = i + 1;
        }
        let c = Columns { values };
        proof {
            assert(c@ =~= self@);
        }
        c
    }
}

impl PartialEq for Columns {
    fn eq(&self, other: &Columns) -> (r: bool) {
        if self.values.len() != other.values.len() {
            proof {
                assert(self@.len() != other@.len());
            }
            return false;
        }
        let mut i: usize = 0;
        while i < self.values.len()
            invariant
                i <= self.values@.len(),
                self.values@.len() == other.values@.len(),
                forall|j: int| 0 <= j < i ==> self@[j] == other@[j],
            decreases self.values@.len() - i,
        {
            if !self.values[i].0.eq(&other.values[i].0) {
                proof {
                    assert(self@[i as int].0 != other@[i as int].0);
                }
                return false;
            }
            if self.values[i].1 != other.values[i].1 {
                proof {
                    assert(self@[i as int].1 != other@[i as int].1);
                }
                return false;
            }
            i = i + 1;
        }
        proof {
            assert(self@ =~= other@);
        }
        true
    }
}

impl vstd::std_specs::cmp::PartialEqSpecImpl for Columns {
    open spec fn obeys_eq_spec() -> bool {
        true
    }

    open spec fn eq_spec(&self, other: &Columns) -> bool {
        self@ == other@
    }
}

/// An ordered sequence of values, positional.
#[derive(Debug)]
pub struct Row {
    values: Vec<Value>,
}

impl View for Row {
    type V = Seq<ValueModel>;

    closed spec fn view(&self) -> Seq<ValueModel> {
        Seq::new(self.values@.len(), |i: int| self.values@[i]@)
    }
}

impl Row {
    /// An empty row.
    pub fn new() -> (r: Row)
        ensures
            r@ == Seq::<ValueModel>::empty(),
    {
        let r = Row { values: Vec::new() };
        proof {
            assert(r@ =~= Seq::<ValueModel>::empty());
        }
        r
    }

    /// Append one value.
    pub fn push(&mut self, value: Value)
        ensures
            final(self)@ == old(self)@.push(value@),
    {
        self.values.push(value);
        proof {
            assert(self@ =~= old(self)@.push(self.values@.last()@));
        }
    }

    /// The number of values.
    pub fn len(&self) -> (n: usize)
        ensures
            n == self@.len(),
    {
        self.values.len()
    }

    /// The value at a position, or an argument-index error past the end.
    pub fn get_value(&self, i: usize) -> (r: Result<&Value, Error>)
        ensures
            match r {
                Ok(v) => i < self@.len() && v@ == self@[i as int],
                Err(e) => i >= self@.len() && e@.code == spec_code(BASE_INDEX_PARAM as int, 0),
            },
    {
        if i < self.values.len() {
            Ok(&self.values[i])
        } else {
            Err(Error::index_param("row index out of range"))
        }
    }

    /// A row equal to this one.
    pub fn duplicate(&self) -> (r: Row)
        ensures
            r@ == self@,
    {
        let mut values: Vec<Value> = Vec::new();
        let mut i: usize = 0;
        while i < self.values.len()
            invariant
                i <= self.values@.len(),
                values@.len() == i,
                forall|j: int| 0 <= j < i ==> values@[j]@ == self.values@[j]@,
            decreases self.values@.len() - i,
        {
            values.push(self.values[i].duplicate());
            i = i + 1;
        }
        let r = Row { values };
        proof {
            assert(r@ =~= self@);
        }
        r
    }
}

impl PartialEq for Row {
    fn eq(&self, other: &Row) -> (r: bool) {
        if self.values.len() != other.values.len() {
            proof {
                assert(self@.len() != other@.len());
            }
            return false;
        }
        let mut i: usize = 0;
        while i < self.values.len()
            invariant
                i <= self.values@.len(),
                self.values@.len() == other.values@.len(),
                forall|j: int| 0 <= j < i ==> self@[j] == other@[j],
            decreases self.values@.len() - i,
        {
            if !self.values[i].eq(&other.values[i]) {
                proof {
                    assert(self@[i as int] != other@[i as int]);
                }
                return false;
            }
            i = i + 1;
        }
        proof {
            assert(self@ =~= other@);
        }
        true
    }
}

impl vstd::std_specs::cmp::PartialEqSpecImpl for Row {
    open spec fn obeys_eq_spec() -> bool {
        true
    }

    open spec fn eq_spec(&self, other: &Row) -> bool {
        self@ == other@
    }
}

/// The arguments of one data-source or scalar-function call.
#[derive(Debug)]
pub struct Args {
    values: Vec<Value>,
}

impl View for Args {
    type V = Seq<ValueModel>;

    closed spec fn view(&self) -> Seq<ValueModel> {
        Seq::new(self.values@.len(), |i: int| self.values@[i]@)
    }
}

impl Args {
    /// An empty argument list.
    pub fn new() -> (a: Args)
        ensures
            a@ == Seq::<ValueModel>::empty(),
    {
        let a = Args { values: Vec::new() };
        proof {
            assert(a@ =~= Seq::<ValueModel>::empty());
        }
        a
    }

    /// Append one argument.
    pub fn push(&mut self, value: Value)
        ensures
            final(self)@ == old(self)@.push(value@),
    {
        self.values.push(value);
        proof {
            assert(self@ =~= old(self)@.push(self.values@.last()@));
        }
    }

    /// The number of arguments.
    pub fn len(&self) -> (n: usize)
        ensures
            n == self@.len(),
    {
        self.values.len()
    }

    /// The argument at a position, or an argument-index error past the end.
    pub fn get(&self, i: usize) -> (r: Result<&Value, Error>)
        ensures
            match r {
                Ok(v) => i < self@.len() && v@ == self@[i as int],
                Err(e) => i >= self@.len() && e@.code == spec_code(BASE_INDEX_PARAM as int, 0),
            },
    {
        if i < self.values.len() {
            Ok(&self.values[i])
        } else {
            Err(Error::index_param("argument index out of range"))
        }
    }
}

/// A row is valid against a schema when the lengths agree and each value
/// is `Nil` or of the column's declared type.
pub open spec fn spec_row_valid(row: Seq<ValueModel>, cols: Seq<(Seq<char>, DataType)>) -> bool {
    &&& row.len() == cols.len()
    &&& forall|i: int|
        0 <= i < row.len() ==> (#[trigger] row[i]) is Nil || spec_type_of(row[i]) == cols[i].1
}

/// The message of a length-mismatch rejection, carrying both lengths.
pub open spec fn spec_len_message(cols: int, rows: int) -> Seq<char>
    recommends
        cols >= 0,
        rows >= 0,
{
    ("invalid row : the cols len is "@) + spec_digits(cols as nat) + (" but row len is "@)
        + spec_digits(rows as nat)
}

/// The message of a type-mismatch rejection, carrying the column's name,
/// its declared type and the value's type.
pub open spec fn spec_type_message(name: Seq<char>, declared: DataType, got: DataType) -> Seq<
    char,
> {
    ("invalid row from the col["@) + name + ("] is "@) + spec_type_text(declared) + (
    " but the row["@) + name + ("] is "@) + spec_type_text(got)
}

/// Validate a row against a schema: success exactly when the row is
/// valid. A length mismatch is an argument-index error whose message
/// carries both lengths; a value of the wrong type an invalid-type error
/// whose message names the offending column and both types.
pub fn valid_row(columns: &Columns, row: &Row) -> (r: Result<(), Error>)
    ensures
        r is Ok <==> spec_row_valid(row@, columns@),
        r matches Err(e) ==> (if row@.len() != columns@.len() {
            e@.code == spec_code(BASE_INDEX_PARAM as int, 0) && e@.message == spec_len_message(
                columns@.len() as int,
                row@.len() as int,
            )
        } else {
            e@.code == spec_code(BASE_INVALID_TYPE as int, 0) && exists|i: int|
                0 <= i < row@.len() && !((#[trigger] row@[i]) is Nil) && spec_type_of(row@[i])
                    != columns@[i].1 && e@.message == spec_type_message(
                    columns@[i].0,
                    columns@[i].1,
                    spec_type_of(row@[i]),
                )
        }),
{
    if row.len() != columns.len() {
        let mut msg = String::new();
        msg.append("invalid row : the cols len is ");
        msg.append(string_from_chars(&to_decimal(columns.len() as u64)).as_str());
        msg.append(" but row len is ");
        msg.append(string_from_chars(&to_decimal(row.len() as u64)).as_str());
        proof {
            assert(msg@ =~= spec_len_message(columns@.len() as int, row@.len() as int));
        }
        return Err(Error::new(code_of(BASE_INDEX_PARAM, 0), msg));
    }
    let n = row.len();
    let mut i: usize = 0;
    while i < n
        invariant
            i <= n,
            n == row@.len() == columns@.len(),
            forall|j: int|
                0 <= j < i ==> (#[trigger] row@[j]) is Nil || spec_type_of(row@[j])
                    == columns@[j].1,
        decreases n - i,
    {
        let value = match row.get_value(i) {
            Ok(v) => v,
            Err(e) => {
                return Err(e);
            },
        };
        if !value.is_nil() {
            let vt = value.get_type();
            if vt != columns.type_at(i) {
                let mut msg = String::new();
                msg.append("invalid row from the col[");
                msg.append(columns.name_at(i).as_str());
                msg.append("] is ");
                msg.append(type_text(columns.type_at(i)));
                msg.append(" but the row[");
                msg.append(columns.name_at(i).as_str());
                msg.append("] is ");
                msg.append(type_text(vt));
                proof {
                    assert(msg@ =~= spec_type_message(
                        columns@[i as int].0,
                        columns@[i as int].1,
                        spec_type_of(row@[i as int]),
                    ));
                }
                return Err(Error::new(code_of(BASE_INVALID_TYPE, 0), msg));
            }
        }
        i = i + 1;
    }
    Ok(())
}

} // verus!
