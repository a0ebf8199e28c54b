//! The parse pass: turns a raw value into the canonical value of a column's
//! kind, or fails with a type or a check error.
use crate::codec::{
    gen_random, int_text, int_to_text, is_alphanumeric_ascii, json_quote, json_reformat,
    json_reformatted, json_string_text, naive_timestamp_of_text, parse_i64,
    parse_naive_timestamp, parse_rfc3339, parse_uuid, rfc3339_of_text, rfc3339_text,
    signed_decimal, timestamp_to_rfc3339, uuid_of_text, uuid_text, uuid_to_text,
};
use crate::context::ExecutionContext;
use crate::duration::{duration_of_text, parse_duration_string};
use crate::error::{check_err, check_error, check_error_text, element_column, element_name, type_err, type_error, SettingsError};
use crate::schema::{ColumnType, InnerColumnType, InnerColumnTypeStringKind};
use crate::state::{flag_at, flag_count, flag_entries, FlagTable};
use crate::utils::text_is;
use crate::value::{kind_name, Timestamp, Value};
use vstd::prelude::*;
use vstd::utf8::encode_utf8;

verus! {

pub open spec fn ok(v: Value) -> Result<Value, SettingsError> {
    Ok(v)
}

/// The bits of `v` that are whole entries of the table: the union of every
/// entry's bits that `v` holds all of.
pub open spec fn flag_mask(t: Seq<(Seq<char>, i64)>, v: i64) -> i64
    decreases t.len(),
{
    if t.len() == 0 {
        0
    } else {
        let b = t.last().1;
        let acc = flag_mask(t.drop_last(), v);
        if b & v == b { acc | b } else { acc }
    }
}

/// What a bit-flag column makes of an integer: its recognised bits, or the
/// table's first entry when none is recognised.
pub open spec fn flag_value(t: Seq<(Seq<char>, i64)>, v: i64) -> Option<i64> {
    if flag_mask(t, v) != 0 {
        Some(flag_mask(t, v))
    } else if t.len() > 0 {
        Some(t[0].1)
    } else {
        None
    }
}

/// `r` is what a bit-flag column makes of the integer `v`.
pub open spec fn flag_parsed(t: Seq<(Seq<char>, i64)>, v: i64, col: Seq<char>, r: Result<Value, SettingsError>) -> bool {
    match flag_value(t, v) {
        Some(b) => r == ok(Value::Integer(b)),
        None => check_error_text(r, col, "bitflag_default"@, "Valid bitflag"@, "No default value found"@),
    }
}

/// `r` is what a bit-flag column makes of an empty text: the default.
pub open spec fn flag_default_parsed(t: Seq<(Seq<char>, i64)>, col: Seq<char>, r: Result<Value, SettingsError>) -> bool {
    if t.len() > 0 {
        r == ok(Value::Integer(t[0].1))
    } else {
        check_error_text(r, col, "bitflag_default"@, "Valid bitflag"@, "No default value found"@)
    }
}

pub open spec fn text_view(o: Option<String>) -> Option<Seq<char>> {
    match o {
        Some(t) => Some(t@),
        None => None,
    }
}

/// The number of bytes of a text in UTF-8, as `str::len` gives it.
pub open spec fn byte_len(s: Seq<char>) -> usize {
    encode_utf8(s).len() as usize
}

/// Whether a text is taken for a JSON array or object rather than for a
/// plain string.
pub open spec fn json_opening(s: Seq<char>) -> bool {
    s.len() > 0 && (s[0] == '[' || s[0] == '{')
}

/// What `accepted_range` says of a byte cap.
pub open spec fn below_text(max: usize) -> Seq<char> {
    seq!['<'] + int_text(max as int)
}

/// `r` is what an empty or absent string becomes: a fresh token for a token
/// column, nothing otherwise.
pub open spec fn empty_string_parsed(kind: InnerColumnTypeStringKind, r: Result<Value, SettingsError>) -> bool {
    match kind {
        InnerColumnTypeStringKind::Token { default_length } => r matches Ok(Value::String(t)) && t@.len()
            == default_length && forall|i: int| 0 <= i < t@.len() ==> is_alphanumeric_ascii(#[trigger] t@[i]),
        _ => r == ok(Value::Null),
    }
}

/// The JSON text of a value that is neither a float nor a list, where it
/// has one.
pub open spec fn json_scalar_text(v: Value) -> Option<Seq<char>> {
    match v {
        Value::Null => Some("null"@),
        Value::Boolean(b) => Some(if b { "true"@ } else { "false"@ }),
        Value::Integer(i) => Some(int_text(i as int)),
        Value::String(s) => Some(json_string_text(s@)),
        Value::Uuid(u) => Some(seq!['"'] + uuid_text(u) + seq!['"']),
        Value::Timestamp(t) | Value::TimestampTz(t) => match rfc3339_text(t.secs, t.nanos) {
            Some(x) => Some(json_string_text(x)),
            None => None,
        },
        Value::Interval(n) => Some(int_text(n as int)),
        Value::Json(x) => Some(x@),
        _ => None,
    }
}

/// `r` is the outcome of holding the JSON text `text` of `v` to the cap
/// `max_bytes`: `v` itself, or the error of a text that could not be made or
/// is too long.
pub open spec fn json_size_checked(v: Value, text: Option<Seq<char>>, max_bytes: Option<usize>, col: Seq<char>, r: Result<Value, SettingsError>) -> bool {
    match text {
        None => check_error_text(r, col, "json_parse"@, "Valid JSON"@, "value has no JSON text"@),
        Some(t) => match max_bytes {
            Some(m) => if byte_len(t) > m { check_error_text(r, col, "json_max_bytes"@, below_text(m), "JSON text too long, bytes: "@ + int_text(byte_len(t) as int)) } else { r == ok(v) },
            None => r == ok(v),
        },
    }
}

/// The JSON text of a value, where it has one that depends on the value
/// alone: `None` for a value that holds a float (whose text the execution
/// context gives) or a time that cannot be written.
pub open spec fn json_value_text(v: Value) -> Option<Seq<char>>
    decreases v,
{
    match v {
        Value::List(l) => {
            match json_items_text(l@) {
                Some(t) => Some(seq!['['] + t + seq![']']),
                None => None,
            }
        },
        _ => json_scalar_text(v),
    }
}

/// The JSON texts of a list's items, separated by commas.
pub open spec fn json_items_text(s: Seq<Value>) -> Option<Seq<char>>
    decreases s,
{
    if s.len() == 0 {
        Some(Seq::empty())
    } else {
        match (json_items_text(s.drop_last()), json_value_text(s.last())) {
            (Some(a), Some(b)) => Some(if s.len() == 1 { b } else { a + seq![','] + b }),
            _ => None,
        }
    }
}

/// A list whose first `i` items have no JSON text of their own has none.
pub proof fn lemma_items_prefix_none(s: Seq<Value>, i: int)
    requires
        0 <= i <= s.len(),
        json_items_text(s.subrange(0, i)) is None,
    ensures
        json_items_text(s) is None,
    decreases s.len() - i,
{
    if i == s.len() {
        assert(s.subrange(0, i) =~= s);
    } else {
        assert(s.subrange(0, i + 1).drop_last() =~= s.subrange(0, i));
        lemma_items_prefix_none(s, i + 1);
    }
}

/// `r` is a possible outcome of holding the JSON text of `v` to a cap: the
/// text is exact but for the floats in `v`.
pub open spec fn json_capped(v: Value, max_bytes: Option<usize>, col: Seq<char>, r: Result<Value, SettingsError>) -> bool {
    if json_value_text(v) is Some || (!(v is Float) && !(v is List)) {
        json_size_checked(v, json_value_text(v), max_bytes, col, r)
    } else {
        r == ok(v) || check_error(r, col, "json_parse"@, "Valid JSON"@)
            || (max_bytes matches Some(m) && check_error(r, col, "json_max_bytes"@, below_text(m)))
    }
}

} // verus!

verus! {

/// `r` is what the parse pass may make of `v` in a column of kind `inner`.
/// It pins the result down but for a fresh token's characters and for what
/// the execution context makes of floats.
pub open spec fn parsed_scalar(v: Value, inner: InnerColumnType, col: Seq<char>, r: Result<Value, SettingsError>) -> bool {
    if v is List && !(inner is Json) {
        type_error(r, col, "Scalar"@, "Array"@)
    } else {
        match inner {
            InnerColumnType::Uuid => match v {
                Value::String(s) => match uuid_of_text(s@) {
                    Some(u) => r == ok(Value::Uuid(u)),
                    None => check_error_text(r, col, "uuid_parse"@, "Valid UUID"@, "not a UUID"@),
                },
                Value::Uuid(_) | Value::Null => r == ok(v),
                _ => type_error(r, col, "Uuid"@, kind_name(v)),
            },
            InnerColumnType::String { kind, .. } => match v {
                Value::String(s) => if s@.len() == 0 { empty_string_parsed(kind, r) } else { r == ok(v) },
                Value::Uuid(u) => r matches Ok(Value::String(t)) && t@ == uuid_text(u),
                Value::Null => empty_string_parsed(kind, r),
                _ => type_error(r, col, "String"@, kind_name(v)),
            },
            InnerColumnType::Timestamp => match v {
                Value::String(s) => match naive_timestamp_of_text(s@) {
                    Some((secs, nanos)) => r == ok(Value::Timestamp(Timestamp { secs, nanos })),
                    None => check_error_text(r, col, "timestamp_parse"@, "Valid timestamp"@, "not a timestamp"@),
                },
                Value::Timestamp(_) | Value::Null => r == ok(v),
                Value::TimestampTz(t) => r == ok(Value::Timestamp(t)),
                _ => type_error(r, col, "Timestamp"@, kind_name(v)),
            },
            InnerColumnType::TimestampTz => match v {
                Value::String(s) => match rfc3339_of_text(s@) {
                    Some((secs, nanos)) => r == ok(Value::TimestampTz(Timestamp { secs, nanos })),
                    None => check_error_text(r, col, "timestamp_tz_parse"@, "Valid timestamp with timezone"@, "not an RFC 3339 timestamp"@),
                },
                Value::TimestampTz(_) | Value::Null => r == ok(v),
                Value::Timestamp(t) => r == ok(Value::TimestampTz(t)),
                _ => type_error(r, col, "TimestampTz"@, kind_name(v)),
            },
            InnerColumnType::Interval => match v {
                Value::String(s) => match duration_of_text(s@) {
                    Ok((n, unit)) => if n * unit.seconds() <= i64::MAX {
                        r == ok(Value::Interval((n * unit.seconds()) as i64))
                    } else {
                        check_error_text(r, col, "interval_parse"@, "Valid interval"@, "interval too long"@)
                    },
                    Err(_) => check_error_text(r, col, "interval_parse"@, "Valid interval"@, "not a duration"@),
                },
                Value::Integer(i) => r == ok(Value::Interval(i)),
                Value::Interval(_) | Value::Null => r == ok(v),
                _ => type_error(r, col, "Interval"@, kind_name(v)),
            },
            InnerColumnType::Integer => match v {
                Value::String(s) => if s@.len() == 0 {
                    r == ok(Value::Null)
                } else {
                    match signed_decimal(s@) {
                        Some(n) => if i64::MIN <= n <= i64::MAX {
                            r == ok(Value::Integer(n as i64))
                        } else {
                            check_error_text(r, col, "integer_parse"@, "Valid integer"@, "not an integer"@)
                        },
                        None => check_error_text(r, col, "integer_parse"@, "Valid integer"@, "not an integer"@),
                    }
                },
                Value::Integer(_) | Value::Null => r == ok(v),
                _ => type_error(r, col, "Integer"@, kind_name(v)),
            },
            InnerColumnType::Float => match v {
                Value::String(_) => r matches Ok(Value::Float(_)) || check_error_text(r, col, "float_parse"@, "Valid float"@, "not a number"@),
                Value::Float(_) | Value::Null => r == ok(v),
                _ => type_error(r, col, "Float"@, kind_name(v)),
            },
            InnerColumnType::BitFlag { values } => match v {
                Value::Integer(i) => flag_parsed(flag_entries(values), i, col, r),
                Value::String(s) => if s@.len() == 0 {
                    flag_default_parsed(flag_entries(values), col, r)
                } else {
                    match signed_decimal(s@) {
                        Some(n) => if i64::MIN <= n <= i64::MAX {
                            flag_parsed(flag_entries(values), n as i64, col, r)
                        } else {
                            check_error_text(r, col, "bitflag_parse"@, "Valid bitflag"@, "not an integer"@)
                        },
                        None => check_error_text(r, col, "bitflag_parse"@, "Valid bitflag"@, "not an integer"@),
                    }
                },
                Value::Null => r == ok(v),
                _ => type_error(r, col, "Integer"@, kind_name(v)),
            },
            InnerColumnType::Boolean => match v {
                Value::String(s) => if s@ == "true"@ {
                    r == ok(Value::Boolean(true))
                } else if s@ == "false"@ {
                    r == ok(Value::Boolean(false))
                } else {
                    check_error_text(r, col, "boolean_parse"@, "Valid boolean"@, "not a boolean"@)
                },
                Value::Boolean(_) | Value::Null => r == ok(v),
                _ => type_error(r, col, "Boolean"@, kind_name(v)),
            },
            InnerColumnType::Json { max_bytes } => match v {
                Value::String(s) => if max_bytes matches Some(m) && byte_len(s@) > m {
                    check_error_text(r, col, "json_max_bytes"@, below_text(max_bytes->0), "text too long, bytes: "@ + int_text(byte_len(s@) as int))
                } else if !json_opening(s@) {
                    r matches Ok(Value::Json(t)) && t@ == json_string_text(s@)
                } else {
                    match json_reformatted(s@) {
                        Some(t) => r matches Ok(Value::Json(x)) && x@ == t,
                        None => check_error_text(r, col, "json_parse"@, "Valid JSON"@, "malformed JSON"@),
                    }
                },
                _ => json_capped(v, max_bytes, col, r),
            },
        }
    }
}

} // verus!

verus! {

/// The union of the table's entries whose bits `v` holds all of.
fn mask_flags(values: &FlagTable, v: i64) -> (r: i64)
    ensures
        r == flag_mask(flag_entries(*values), v),
{
    let n = flag_count(values);
    let ghost t = flag_entries(*values);
    let mut acc: i64 = 0;
    let mut i: usize = 0;
    while i < n
        invariant
            n == t.len(),
            t == flag_entries(*values),
            i <= n,
            acc == flag_mask(t.subrange(0, i as int), v),
        decreases n - i,
    {
        let b = flag_at(values, i);
        proof {
            assert(t.subrange(0, i + 1).drop_last() == t.subrange(0, i as int));
        }
        if b & v == b {
            acc = acc | b;
        }
        i = i + 1;
    }
    assert(t.subrange(0, n as int) == t);
    acc
}

fn bitflag_default(values: &FlagTable, col: &String) -> (r: Result<Value, SettingsError>)
    ensures
        flag_default_parsed(flag_entries(*values), col@, r),
{
    if flag_count(values) == 0 {
        check_err(col, "bitflag_default", String::from_str("Valid bitflag"), String::from_str("No default value found"))
    } else {
        Ok(Value::Integer(flag_at(values, 0)))
    }
}

fn bitflag_from_int(values: &FlagTable, v: i64, col: &String) -> (r: Result<Value, SettingsError>)
    ensures
        flag_parsed(flag_entries(*values), v, col@, r),
{
    let m = mask_flags(values, v);
    if m != 0 {
        Ok(Value::Integer(m))
    } else {
        bitflag_default(values, col)
    }
}

/// What `accepted_range` says of a byte cap.
pub(crate) fn below(max: usize) -> (r: String)
    ensures
        r@ == below_text(max),
{
    let mut s = String::from_str("<");
    let t = int_to_text(max as i128);
    s.append(t.as_str());
    proof {
        reveal_strlit("<");
    }
    s
}

/// Holds the JSON text of `v` (or the failure to make one) to a byte cap.
pub fn check_json_size(v: Value, text: Option<String>, max_bytes: Option<usize>, col: &String) -> (r: Result<Value, SettingsError>)
    ensures
        json_size_checked(
            v,
            text_view(text),
            max_bytes,
            col@,
            r,
        ),
{
    match text {
        None => {
            check_err(col, "json_parse", String::from_str("Valid JSON"), String::from_str("value has no JSON text"))
        },
        Some(t) => match max_bytes {
            Some(m) => {
                let len = t.as_str().len();
                if len > m {
                    let mut e = String::from_str("JSON text too long, bytes: ");
                    let n = int_to_text(len as i128);
                    e.append(n.as_str());
                    check_err(col, "json_max_bytes", below(m), e)
                } else {
                    Ok(v)
                }
            },
            None => Ok(v),
        },
    }
}

fn quoted(inner: String) -> (r: String)
    ensures
        r@ == seq!['"'] + inner@ + seq!['"'],
{
    let mut s = String::from_str("\"");
    s.append(inner.as_str());
    s.append("\"");
    proof {
        reveal_strlit("\"");
    }
    s
}

/// The JSON text of a value: exact for everything but floats, whose text
/// the execution context gives.
pub fn json_text<E: ExecutionContext>(env: &E, v: &Value) -> (r: Option<String>)
    ensures
        !(*v is Float) && !(*v is List) ==> match r {
            Some(t) => json_scalar_text(*v) == Some(t@),
            None => json_scalar_text(*v) is None,
        },
        json_value_text(*v) is Some ==> (r matches Some(t) && json_value_text(*v) == Some(t@)),
    decreases v,
{
    match v {
        Value::Null => Some(String::from_str("null")),
        Value::Boolean(b) => if *b { Some(String::from_str("true")) } else { Some(String::from_str("false")) },
        Value::Integer(i) => Some(int_to_text(*i as i128)),
        Value::Float(bits) => env.float_json(*bits),
        Value::String(s) => Some(json_quote(s.as_str())),
        Value::Uuid(u) => Some(quoted(uuid_to_text(*u))),
        Value::Timestamp(t) | Value::TimestampTz(t) => match timestamp_to_rfc3339(t.secs, t.nanos) {
            Some(x) => Some(json_quote(x.as_str())),
            None => None,
        },
        Value::Interval(n) => Some(int_to_text(*n as i128)),
        Value::Json(x) => Some(x.clone()),
        Value::List(l) => {
            let mut s = String::from_str("[");
            proof {
                reveal_strlit("[");
                reveal_strlit(",");
                reveal_strlit("]");
                assert(l@.subrange(0, 0) =~= Seq::<Value>::empty());
            }
            let mut i: usize = 0;
            while i < l.len()
                invariant
                    i <= l.len(),
                    *v == Value::List(*l),
                    json_items_text(l@.subrange(0, i as int)) matches Some(t) ==> s@ == seq!['['] + t,
                decreases l.len() - i,
            {
                let ghost before = s@;
                if i > 0 {
                    s.append(",");
                }
                proof {
                    vstd::std_specs::vec::axiom_vec_index_decreases(*l, i as int);
                    assert(decreases_to!(*v => (*v)->List_0));
                    assert(l@.subrange(0, i + 1).drop_last() =~= l@.subrange(0, i as int));
                    assert(l@.subrange(0, i + 1).last() == l@[i as int]);
                }
                match json_text(env, &l[i]) {
                    Some(t) => {
                        s.append(t.as_str());
                        proof {
                            if json_items_text(l@.subrange(0, i + 1)) is Some {
                                let a = json_items_text(l@.subrange(0, i as int))->0;
                                if i == 0 {
                                    assert(a =~= Seq::<char>::empty());
                                    assert(s@ =~= seq!['['] + t@);
                                } else {
                                    reveal_strlit(",");
                                    assert(json_items_text(l@.subrange(0, i as int)) is Some);
                                    assert(before == seq!['['] + a);
                                    assert(s@ == before + ","@ + t@);
                                    assert(s@ =~= seq!['['] + (a + seq![','] + t@));
                                }
                            }
                        }
                    },
                    None => {
                        proof {
                            lemma_items_prefix_none(l@, i as int + 1);
                        }
                        return None;
                    },
                }
                i = i + 1;
            }
            s.append("]");
            proof {
                assert(l@.subrange(0, l@.len() as int) =~= l@);
            }
            Some(s)
        },
    }
}

} // verus!

verus! {

/// `true` or `false`, read as `bool::from_str` reads them.
fn bool_of_text(s: &str) -> (r: Option<bool>)
    ensures
        r == (if s@ == "true"@ { Some(true) } else if s@ == "false"@ { Some(false) } else { None::<bool> }),
{
    if text_is(s, "true") {
        Some(true)
    } else if text_is(s, "false") {
        Some(false)
    } else {
        None
    }
}

fn empty_string(kind: &InnerColumnTypeStringKind) -> (r: Result<Value, SettingsError>)
    ensures
        empty_string_parsed(*kind, r),
{
    match kind {
        InnerColumnTypeStringKind::Token { default_length } => Ok(Value::String(gen_random(*default_length))),
        _ => Ok(Value::Null),
    }
}

fn parse_json_scalar<E: ExecutionContext>(env: &E, v: Value, max_bytes: Option<usize>, col: &String) -> (r: Result<Value, SettingsError>)
    ensures
        parsed_scalar(v, InnerColumnType::Json { max_bytes }, col@, r),
{
    match v {
        Value::String(s) => {
            let len = s.as_str().len();
            if let Some(m) = max_bytes {
                if len > m {
                    let mut e = String::from_str("text too long, bytes: ");
                    let n = int_to_text(len as i128);
                    e.append(n.as_str());
                    return check_err(col, "json_max_bytes", below(m), e);
                }
            }
            let n = s.unicode_len();
            let opening = n > 0 && {
                let c = s.as_str().get_char(0);
                c == '[' || c == '{'
            };
            if !opening {
                Ok(Value::Json(json_quote(s.as_str())))
            } else {
                match json_reformat(s.as_str()) {
                    Some(t) => Ok(Value::Json(t)),
                    None => check_err(col, "json_parse", String::from_str("Valid JSON"), String::from_str("malformed JSON")),
                }
            }
        },
        _ => {
            let text = json_text(env, &v);
            check_json_size(v, text, max_bytes, col)
        },
    }
}

fn parse_interval(s: &String, col: &String) -> (r: Result<Value, SettingsError>)
    ensures
        parsed_scalar(Value::String(*s), InnerColumnType::Interval, col@, r),
{
    match parse_duration_string(s.as_str()) {
        Ok((n, unit)) => {
            let secs = unit.to_seconds();
            if n <= (i64::MAX as u64) / secs {
                proof {
                    assert(n * secs <= i64::MAX) by (nonlinear_arith)
                        requires n <= (i64::MAX as u64) / secs, secs > 0;
                }
                Ok(Value::Interval((n * secs) as i64))
            } else {
                proof {
                    assert(n * secs > i64::MAX) by (nonlinear_arith)
                        requires n > (i64::MAX as u64) / secs, secs > 0;
                }
                check_err(col, "interval_parse", String::from_str("Valid interval"), String::from_str("interval too long"))
            }
        },
        Err(_) => check_err(col, "interval_parse", String::from_str("Valid interval"), String::from_str("not a duration")),
    }
}

fn parse_bitflag(v: Value, values: &FlagTable, col: &String) -> (r: Result<Value, SettingsError>)
    requires
        !(v is List),
    ensures
        parsed_scalar(v, InnerColumnType::BitFlag { values: *values }, col@, r),
{
    match v {
        Value::Integer(i) => bitflag_from_int(values, i, col),
        Value::String(s) => {
            if s.unicode_len() == 0 {
                bitflag_default(values, col)
            } else {
                match parse_i64(s.as_str()) {
                    Some(i) => bitflag_from_int(values, i, col),
                    None => check_err(col, "bitflag_parse", String::from_str("Valid bitflag"), String::from_str("not an integer")),
                }
            }
        },
        Value::Null => Ok(Value::Null),
        _ => {
            let got = v.kind();
            type_err(col, "Integer", got)
        },
    }
}

} // verus!

verus! {

/// Parses a value against a column of kind `inner`.
pub fn parse_scalar<E: ExecutionContext>(env: &E, v: Value, inner: &InnerColumnType, col: &String) -> (r: Result<Value, SettingsError>)
    ensures
        parsed_scalar(v, *inner, col@, r),
{
    if matches!(v, Value::List(_)) && !matches!(inner, InnerColumnType::Json { .. }) {
        return type_err(col, "Scalar", String::from_str("Array"));
    }
    match inner {
        InnerColumnType::Uuid => match v {
            Value::String(s) => match parse_uuid(s.as_str()) {
                Some(u) => Ok(Value::Uuid(u)),
                None => check_err(col, "uuid_parse", String::from_str("Valid UUID"), String::from_str("not a UUID")),
            },
            Value::Uuid(u) => Ok(Value::Uuid(u)),
            Value::Null => Ok(Value::Null),
            _ => {
                let got = v.kind();
                type_err(col, "Uuid", got)
            },
        },
        InnerColumnType::String { kind, .. } => match v {
            Value::String(s) => {
                if s.unicode_len() == 0 {
                    empty_string(kind)
                } else {
                    Ok(Value::String(s))
                }
            },
            Value::Uuid(u) => Ok(Value::String(uuid_to_text(u))),
            Value::Null => empty_string(kind),
            _ => {
                let got = v.kind();
                type_err(col, "String", got)
            },
        },
        InnerColumnType::Timestamp => match v {
            Value::String(s) => match parse_naive_timestamp(s.as_str()) {
                Some((secs, nanos)) => Ok(Value::Timestamp(Timestamp { secs, nanos })),
                None => check_err(col, "timestamp_parse", String::from_str("Valid timestamp"), String::from_str("not a timestamp")),
            },
            Value::Timestamp(t) => Ok(Value::Timestamp(t)),
            Value::TimestampTz(t) => Ok(Value::Timestamp(t)),
            Value::Null => Ok(Value::Null),
            _ => {
                let got = v.kind();
                type_err(col, "Timestamp", got)
            },
        },
        InnerColumnType::TimestampTz => match v {
            Value::String(s) => match parse_rfc3339(s.as_str()) {
                Some((secs, nanos)) => Ok(Value::TimestampTz(Timestamp { secs, nanos })),
                None => check_err(
                    col,
                    "timestamp_tz_parse",
                    String::from_str("Valid timestamp with timezone"),
                    String::from_str("not an RFC 3339 timestamp"),
                ),
            },
            Value::Timestamp(t) => Ok(Value::TimestampTz(t)),
            Value::TimestampTz(t) => Ok(Value::TimestampTz(t)),
            Value::Null => Ok(Value::Null),
            _ => {
                let got = v.kind();
                type_err(col, "TimestampTz", got)
            },
        },
        InnerColumnType::Interval => match v {
            Value::String(s) => parse_interval(&s, col),
            Value::Integer(i) => Ok(Value::Interval(i)),
            Value::Interval(i) => Ok(Value::Interval(i)),
            Value::Null => Ok(Value::Null),
            _ => {
                let got = v.kind();
                type_err(col, "Interval", got)
            },
        },
        InnerColumnType::Integer => match v {
            Value::String(s) => {
                if s.unicode_len() == 0 {
                    Ok(Value::Null)
                } else {
                    match parse_i64(s.as_str()) {
                        Some(i) => Ok(Value::Integer(i)),
                        None => check_err(col, "integer_parse", String::from_str("Valid integer"), String::from_str("not an integer")),
                    }
                }
            },
            Value::Integer(i) => Ok(Value::Integer(i)),
            Value::Null => Ok(Value::Null),
            _ => {
                let got = v.kind();
                type_err(col, "Integer", got)
            },
        },
        InnerColumnType::Float => match v {
            Value::String(s) => match env.parse_float(s.as_str()) {
                Some(bits) => Ok(Value::Float(bits)),
                None => check_err(col, "float_parse", String::from_str("Valid float"), String::from_str("not a number")),
            },
            Value::Float(bits) => Ok(Value::Float(bits)),
            Value::Null => Ok(Value::Null),
            _ => {
                let got = v.kind();
                type_err(col, "Float", got)
            },
        },
        InnerColumnType::BitFlag { values } => parse_bitflag(v, values, col),
        InnerColumnType::Boolean => match v {
            Value::String(s) => match bool_of_text(s.as_str()) {
                Some(b) => Ok(Value::Boolean(b)),
                None => check_err(col, "boolean_parse", String::from_str("Valid boolean"), String::from_str("not a boolean")),
            },
            Value::Boolean(b) => Ok(Value::Boolean(b)),
            Value::Null => Ok(Value::Null),
            _ => {
                let got = v.kind();
                type_err(col, "Boolean", got)
            },
        },
        InnerColumnType::Json { max_bytes } => parse_json_scalar(env, v, *max_bytes, col),
    }
}

} // verus!

verus! {

/// `r` is what the parse pass may make of the list `l` in an array column of
/// kind `inner`: every element parsed, in order, or the error of the first
/// element that fails, after every element before it parsed. An element's
/// errors name it `col[i]`.
pub open spec fn list_parsed(l: Seq<Value>, inner: InnerColumnType, col: Seq<char>, r: Result<Value, SettingsError>) -> bool {
    ||| (r matches Ok(Value::List(out)) && out@.len() == l.len() && forall|i: int|
        0 <= i < l.len() ==> parsed_scalar(#[trigger] l[i], inner, element_column(col, i), ok(out@[i])))
    ||| (r is Err && exists|k: int|
        0 <= k < l.len() && parsed_scalar(#[trigger] l[k], inner, element_column(col, k), r) && forall|i: int|
            0 <= i < k ==> exists|w: Value| parsed_scalar(#[trigger] l[i], inner, element_column(col, i), ok(w)))
}

/// `r` is what the parse pass may make of `v` in a column of type `ct`. For
/// an array of JSON, the JSON text of the whole list is first held to the
/// byte cap (exactly so, when that text does not depend on floats).
pub open spec fn parsed(v: Value, ct: ColumnType, col: Seq<char>, r: Result<Value, SettingsError>) -> bool {
    match ct {
        ColumnType::Scalar { inner } => parsed_scalar(v, inner, col, r),
        ColumnType::Array { inner } => {
            let elementwise = match v {
                Value::List(l) => list_parsed(l@, inner, col, r),
                Value::Null => r == ok(Value::Null),
                _ => type_error(r, col, "Array"@, kind_name(v)),
            };
            match inner {
                InnerColumnType::Json { max_bytes } => match json_value_text(v) {
                    Some(t) => if max_bytes matches Some(m) && byte_len(t) > m {
                        check_error(r, col, "json_max_bytes"@, below_text(max_bytes->0))
                    } else {
                        elementwise
                    },
                    None => elementwise || check_error(r, col, "json_parse"@, "Valid JSON"@)
                        || (max_bytes matches Some(m) && check_error(r, col, "json_max_bytes"@, below_text(m))),
                },
                _ => elementwise,
            }
        },
    }
}

fn parse_list<E: ExecutionContext>(env: &E, l: Vec<Value>, inner: &InnerColumnType, col: &String) -> (r: Result<Value, SettingsError>)
    ensures
        list_parsed(l@, *inner, col@, r),
{
    let ghost l0 = l@;
    let n = l.len();
    let mut rest = l;
    let mut out: Vec<Value> = Vec::new();
    let mut k: usize = 0;
    while k < n
        invariant
            n == l0.len(),
            k <= n,
            l0 == l@,
            rest@ == l0.subrange(k as int, n as int),
            out@.len() == k,
            forall|i: int| 0 <= i < k ==> parsed_scalar(#[trigger] l0[i], *inner, element_column(col@, i), ok(out@[i])),
        decreases n - k,
    {
        let x = rest.remove(0);
        assert(x == l0[k as int]);
        let name = element_name(col, k);
        let res = parse_scalar(env, x, inner, &name);
        match res {
            Ok(w) => {
                out.push(w);
            },
            Err(e) => {
                proof {
                    assert forall|i: int| 0 <= i < k implies exists|w: Value| parsed_scalar(#[trigger] l0[i], *inner, element_column(col@, i), ok(w)) by {
                        assert(parsed_scalar(l0[i], *inner, element_column(col@, i), ok(out@[i])));
                    }
                    assert(parsed_scalar(l0[k as int], *inner, element_column(col@, k as int), res));
                }
                return Err(e);
            },
        }
        k = k + 1;
    }
    Ok(Value::List(out))
}

/// The parse pass: the canonical value of `v` for a column of type `ct`, or
/// the type or check error that refuses it.
pub fn parse_value<E: ExecutionContext>(env: &E, v: Value, ct: &ColumnType, col: &String) -> (r: Result<Value, SettingsError>)
    ensures
        parsed(v, *ct, col@, r),
{
    match ct {
        ColumnType::Scalar { inner } => parse_scalar(env, v, inner, col),
        ColumnType::Array { inner } => {
            let mut v = v;
            if let InnerColumnType::Json { max_bytes } = inner {
                let text = json_text(env, &v);
                match check_json_size(v, text, *max_bytes, col) {
                    Ok(w) => {
                        v = w;
                    },
                    Err(e) => {
                        return Err(e);
                    },
                }
            }
            match v {
                Value::List(l) => parse_list(env, l, inner, col),
                Value::Null => Ok(Value::Null),
                _ => {
                    let got = v.kind();
                    type_err(col, "Array", got)
                },
            }
        },
    }
}

} // verus!
