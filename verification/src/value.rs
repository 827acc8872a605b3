//! Typed scalar primitives: `Value`, its tag `DataType`, and the SQL
//! engine's native value form `EngineValue`.
//!
//! A `Value` carries exactly one tag. The engine has no boolean type, so
//! marshalling a `Boolean` into the engine stores an integer 0 or 1, and a
//! round trip through the engine yields an `Integer`; every other tag round
//! trips unchanged. Floating-point payloads are carried as their raw 64-bit
//! pattern, so the round trip is bit-exact.
use vstd::prelude::*;

verus! {

/// The tag of a `Value`: its type alone.
#[derive(Clone, Copy, Debug, PartialEq, Eq, Structural)]
pub enum DataType {
    String,
    Integer,
    Number,
    Boolean,
    Bytes,
    Nil,
}

/// A typed scalar. `Number` holds the raw bit pattern of a 64-bit float.
#[derive(Debug)]
pub enum Value {
    String(String),
    Integer(i64),
    Number(u64),
    Boolean(bool),
    Bytes(Vec<u8>),
    Nil,
}

/// Mathematical model of a `Value`.
pub enum ValueModel {
    Str(Seq<char>),
    Int(int),
    Num(u64),
    Bool(bool),
    Bytes(Seq<u8>),
    Nil,
}

impl View for Value {
    type V = ValueModel;

    open spec fn view(&self) -> ValueModel {
        match self {
            Value::String(s) => ValueModel::Str(s@),
            Value::Integer(i) => ValueModel::Int(*i as int),
            Value::Number(n) => ValueModel::Num(*n),
            Value::Boolean(b) => ValueModel::Bool(*b),
            Value::Bytes(b) => ValueModel::Bytes(b@),
            Value::Nil => ValueModel::Nil,
        }
    }
}

/// The printed name of a type tag.
pub open spec fn spec_type_text(t: DataType) -> Seq<char> {
    match t {
        DataType::String => ("String"@),
        DataType::Integer => ("Integer"@),
        DataType::Number => ("Number"@),
        DataType::Boolean => ("Boolean"@),
        DataType::Bytes => ("Bytes"@),
        DataType::Nil => ("Nil"@),
    }
}

/// The printed name of a type tag.
pub fn type_text(t: DataType) -> (r: &'static str)
    ensures
        r@ == spec_type_text(t),
{
    match t {
        DataType::String => "String",
        DataType::Integer => "Integer",
        DataType::Number => "Number",
        DataType::Boolean => "Boolean",
        DataType::Bytes => "Bytes",
        DataType::Nil => "Nil",
    }
}

/// The type tag of a modelled value.
pub open spec fn spec_type_of(v: ValueModel) -> DataType {
    match v {
        ValueModel::Str(_) => DataType::String,
        ValueModel::Int(_) => DataType::Integer,
        ValueModel::Num(_) => DataType::Number,
        ValueModel::Bool(_) => DataType::Boolean,
        ValueModel::Bytes(_) => DataType::Bytes,
        ValueModel::Nil => DataType::Nil,
    }
}

impl Value {
    /// Project the tag of this value.
    pub fn get_type(&self) -> (t: DataType)
        ensures
            t == spec_type_of(self@),
    {
        match self {
            Value::String(_) => DataType::String,
            Value::Integer(_) => DataType::Integer,
            Value::Number(_) => DataType::Number,
            Value::Boolean(_) => DataType::Boolean,
            Value::Bytes(_) => DataType::Bytes,
            Value::Nil => DataType::Nil,
        }
    }

    /// `Nil` equals only `Nil`; this tests the tag.
    pub fn is_nil(&self) -> (r: bool)
        ensures
            r == (self@ is Nil),
    {
        match self {
            Value::Nil => true,
            _ => false,
        }
    }

    /// A value equal to this one.
    pub fn duplicate(&self) -> (r: Value)
        ensures
            r@ == self@,
    {
        match self {
            Value::String(s) => Value::String(s.clone()),
            Value::Integer(i) => Value::Integer(*i),
            Value::Number(n) => Value::Number(*n),
            Value::Boolean(b) => Value::Boolean(*b),
            Value::Bytes(b) => Value::Bytes(duplicate_bytes(b)),
            Value::Nil => Value::Nil,
        }
    }
}

/// A copy of a byte vector.
pub fn duplicate_bytes(b: &Vec<u8>) -> (r: Vec<u8>)
    ensures
        r@ == b@,
{
    let mut r: Vec<u8> = Vec::new();
    let mut i: usize = 0;
    while i < b.len()
        invariant
            i <= b@.len(),
            r@ == b@.subrange(0, i as int),
        decreases b@.len() - i,
    {
        r.push(b[i]);
        i = i + 1;
        proof {
            assert(r@ == b@.subrange(0, i as int));
        }
    }
    proof {
        assert(b@.subrange(0, b@.len() as int) == b@);
    }
    r
}

impl PartialEq for Value {
    /// Tag-and-payload equality; `Nil` equals only `Nil`.
    fn eq(&self, other: &Value) -> (r: bool) {
        match (self, other) {
            (Value::String(a), Value::String(b)) => a.eq(b),
            (Value::Integer(a), Value::Integer(b)) => *a == *b,
            (Value::Number(a), Value::Number(b)) => *a == *b,
            (Value::Boolean(a), Value::Boolean(b)) => *a == *b,
            (Value::Bytes(a), Value::Bytes(b)) => bytes_eq(a, b),
            (Value::Nil, Value::Nil) => true,
            _ => false,
        }
    }
}

impl vstd::std_specs::cmp::PartialEqSpecImpl for Value {
    open spec fn obeys_eq_spec() -> bool {
        true
    }

    open spec fn eq_spec(&self, other: &Value) -> bool {
        self@ == other@
    }
}

/// Byte-vector equality.
pub fn bytes_eq(a: &Vec<u8>, b: &Vec<u8>) -> (r: bool)
    ensures
        r == (a@ == b@),
{
    if a.len() != b.len() {
        proof {
            assert(a@ != b@) by {
                assert(a@.len() != b@.len());
            }
        }
        return false;
    }
    let mut i: usize = 0;
    while i < a.len()
        invariant
            i <= a@.len(),
            a@.len() == b@.len(),
            forall|j: int| 0 <= j < i ==> a@[j] == b@[j],
        decreases a@.len() - i,
    {
        if a[i] != b[i] {
            return false;
        }
        i = i + 1;
    }
    proof {
        assert(a@ =~= b@);
    }
    true
}

/// The SQL engine's native value: null, signed 64-bit integer, 64-bit
/// float (carried as its bit pattern), UTF-8 text, or blob.
#[derive(Debug)]
pub enum EngineValue {
    Null,
    Integer(i64),
    Real(u64),
    Text(String),
    Blob(Vec<u8>),
}

/// Mathematical model of an `EngineValue`.
pub enum EngineValueModel {
    Null,
    Int(int),
    Real(u64),
    Text(Seq<char>),
    Blob(Seq<u8>),
}

impl View for EngineValue {
    type V = EngineValueModel;

    open spec fn view(&self) -> EngineValueModel {
        match self {
            EngineValue::Null => EngineValueModel::Null,
            EngineValue::Integer(i) => EngineValueModel::Int(*i as int),
            EngineValue::Real(n) => EngineValueModel::Real(*n),
            EngineValue::Text(s) => EngineValueModel::Text(s@),
            EngineValue::Blob(b) => EngineValueModel::Blob(b@),
        }
    }
}

/// Marshalling a value into the engine: text, integer, float bits, blob,
/// or null; a boolean becomes the integer 0 or 1.
pub open spec fn spec_to_engine(v: ValueModel) -> EngineValueModel {
    match v {
        ValueModel::Str(s) => EngineValueModel::Text(s),
        ValueModel::Int(i) => EngineValueModel::Int(i),
        ValueModel::Num(n) => EngineValueModel::Real(n),
        ValueModel::Bool(b) => EngineValueModel::Int(if b { 1int } else { 0int }),
        ValueModel::Bytes(b) => EngineValueModel::Blob(b),
        ValueModel::Nil => EngineValueModel::Null,
    }
}

/// Marshalling a value out of the engine; the engine has no boolean type,
/// so no `Boolean` is ever produced.
pub open spec fn spec_from_engine(e: EngineValueModel) -> ValueModel {
    match e {
        EngineValueModel::Null => ValueModel::Nil,
        EngineValueModel::Int(i) => ValueModel::Int(i),
        EngineValueModel::Real(n) => ValueModel::Num(n),
        EngineValueModel::Text(s) => ValueModel::Str(s),
        EngineValueModel::Blob(b) => ValueModel::Bytes(b),
    }
}

/// The documented collapse of a round trip through the engine: a boolean
/// comes back as the integer 0 or 1; every other value is unchanged.
pub open spec fn spec_engine_collapse(v: ValueModel) -> ValueModel {
    match v {
        ValueModel::Bool(b) => ValueModel::Int(if b { 1int } else { 0int }),
        _ => v,
    }
}

impl Value {
    /// Serialize into the engine's native form.
    pub fn to_engine(self) -> (e: EngineValue)
        ensures
            e@ == spec_to_engine(self@),
    {
        match self {
            Value::String(s) => EngineValue::Text(s),
            Value::Integer(i) => EngineValue::Integer(i),
            Value::Number(n) => EngineValue::Real(n),
            Value::Boolean(b) => EngineValue::Integer(if b { 1 } else { 0 }),
            Value::Bytes(b) => EngineValue::Blob(b),
            Value::Nil => EngineValue::Null,
        }
    }

    /// Deserialize from the engine's native form.
    pub fn from(e: EngineValue) -> (v: Value)
        ensures
            v@ == spec_from_engine(e@),
    {
        match e {
            EngineValue::Null => Value::Nil,
            EngineValue::Integer(i) => Value::Integer(i),
            EngineValue::Real(n) => Value::Number(n),
            EngineValue::Text(s) => Value::String(s),
            EngineValue::Blob(b) => Value::Bytes(b),
        }
    }
}

/// A value survives a round trip through the engine unchanged, except that
/// a boolean collapses to the integer 0 or 1.
pub proof fn lemma_engine_round_trip(v: ValueModel)
    ensures
        spec_from_engine(spec_to_engine(v)) == spec_engine_collapse(v),
        !(v is Bool) ==> spec_from_engine(spec_to_engine(v)) == v,
{
}

} // verus!
