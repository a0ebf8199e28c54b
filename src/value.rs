use vstd::prelude::*;

verus! {

/// A point in time, held as whole seconds since the Unix epoch (UTC) and
/// the nanoseconds within that second.
#[derive(Clone, Copy, Debug, PartialEq, Eq, Structural)]
pub struct Timestamp {
    pub secs: i64,
    pub nanos: u32,
}

/// Any settings datum.
///
/// * `Float` holds the IEEE-754 binary64 bit pattern of the number.
/// * `Uuid` holds the 128 bits of the identifier.
/// * `Timestamp` is a wall-clock time without zone, read as UTC;
///   `TimestampTz` is an instant. Both hold the same representation.
/// * `Interval` holds a duration in whole seconds.
/// * `Json` holds a JSON document in its serialised text form.
#[derive(Debug)]
pub enum Value {
    Null,
    Boolean(bool),
    Integer(i64),
    Float(u64),
    String(String),
    Uuid(u128),
    Timestamp(Timestamp),
    TimestampTz(Timestamp),
    Interval(i64),
    Json(String),
    List(Vec<Value>),
}

} // verus!

verus! {

/// The name of a value's kind, as type errors report it.
pub open spec fn kind_name(v: Value) -> Seq<char> {
    match v {
        Value::Null => "None"@,
        Value::Boolean(_) => "Boolean"@,
        Value::Integer(_) => "Integer"@,
        Value::Float(_) => "Float"@,
        Value::String(_) => "String"@,
        Value::Uuid(_) => "Uuid"@,
        Value::Timestamp(_) => "Timestamp"@,
        Value::TimestampTz(_) => "TimestampTz"@,
        Value::Interval(_) => "Interval"@,
        Value::Json(_) => "Json"@,
        Value::List(_) => "List"@,
    }
}

impl Value {
    /// The name of this value's kind.
    pub fn kind(&self) -> (r: String)
        ensures
            r@ == kind_name(*self),
    {
        match self {
            Value::Null => String::from_str("None"),
            Value::Boolean(_) => String::from_str("Boolean"),
            Value::Integer(_) => String::from_str("Integer"),
            Value::Float(_) => String::from_str("Float"),
            Value::String(_) => String::from_str("String"),
            Value::Uuid(_) => String::from_str("Uuid"),
            Value::Timestamp(_) => String::from_str("Timestamp"),
            Value::TimestampTz(_) => String::from_str("TimestampTz"),
            Value::Interval(_) => String::from_str("Interval"),
            Value::Json(_) => String::from_str("Json"),
            Value::List(_) => String::from_str("List"),
        }
    }
}

} // verus!
