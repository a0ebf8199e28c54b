//! Properties of the parse and validate passes and of the operations,
//! stated over their specifications and proved.
use crate::error::{element_column, SettingsError};
use crate::ops::{column_accepts, column_refuses, fields_refused, input_value, prepared, viewed};
use crate::codec::signed_decimal;
use crate::parse::{byte_len, flag_mask, flag_value, list_parsed, ok, parsed, parsed_scalar};
use crate::schema::{Column, ColumnType, InnerColumnType, InnerColumnTypeStringKind, OperationType, Setting};
use crate::state::{flag_entries, FlagTable};
use crate::validate::{done, list_checked, null_error, scalar_checked, value_checked};
use crate::value::Value;
use vstd::prelude::*;

verus! {

/// Whether the column reads an empty text as null: an integer column, or a
/// string column that is not a token column.
pub open spec fn empty_text_is_null(inner: InnerColumnType) -> bool {
    match inner {
        InnerColumnType::Integer => true,
        InnerColumnType::String { kind, .. } => !(kind is Token),
        _ => false,
    }
}

pub open spec fn empty_text(v: Value) -> bool {
    v matches Value::String(s) && s@.len() == 0
}

/// Whether the column's values, or its list's items, are JSON.
pub open spec fn holds_json(ct: ColumnType) -> bool {
    match ct {
        ColumnType::Scalar { inner } => inner is Json,
        ColumnType::Array { inner } => inner is Json,
    }
}

pub open spec fn is_token_column(ct: ColumnType) -> bool {
    ct matches ColumnType::Scalar { inner: InnerColumnType::String { kind: InnerColumnTypeStringKind::Token { .. }, .. } }
}

/// In a column that may not be null, a null input, or an empty text where
/// the column reads it as null, that the parse pass accepts fails the
/// validate pass with the null-value error. Token columns are the exception
/// (see `token_fills_itself_in`).
pub proof fn null_input_rejected(v: Value, ct: ColumnType, col: Seq<char>, p: Value, r: Result<(), SettingsError>, guild: u64)
    requires
        !is_token_column(ct),
        v is Null || (empty_text(v) && ct is Scalar && empty_text_is_null(ct->Scalar_inner)),
        parsed(v, ct, col, Ok(p)),
        value_checked(p, ct, guild, col, false, r),
    ensures
        null_error(r, col),
{
    assert(p is Null);
}

/// A token column fills in an empty or null input with a fresh token of its
/// default length, which the validate pass never refuses as null.
pub proof fn token_fills_itself_in(v: Value, ct: ColumnType, col: Seq<char>, p: Value, r: Result<(), SettingsError>, guild: u64)
    requires
        is_token_column(ct),
        v is Null || empty_text(v),
        parsed(v, ct, col, Ok(p)),
        value_checked(p, ct, guild, col, false, r),
    ensures
        p matches Value::String(t) && t@.len() == ct->Scalar_inner->String_kind->Token_default_length,
        !null_error(r, col),
{
}

/// Whether `v` is an input that column `c` reads as null: null itself, or
/// an empty text where the column reads it so.
pub open spec fn null_input(c: Column, v: Value) -> bool {
    v is Null || (empty_text(v) && c.column_type is Scalar && empty_text_is_null(c.column_type->Scalar_inner))
}

/// A create or an update never reaches its hook while a column that it does
/// not ignore, and that may not be null, gets an input that reads as null;
/// token columns are the exception.
pub proof fn required_null_blocks_write(s: Setting, op: OperationType, m: Map<Seq<char>, Value>, j: int, guild: u64)
    requires
        0 <= j < s.columns@.len(),
        !s.columns@[j].is_ignored_for(op),
        !s.columns@[j].nullable,
        !is_token_column(s.columns@[j].column_type),
        null_input(s.columns@[j], input_value(m, s.columns@[j].id@)),
    ensures
        forall|out: Map<Seq<char>, Value>| !prepared(s, op, guild, m, out),
{
    assert forall|out: Map<Seq<char>, Value>| !prepared(s, op, guild, m, out) by {
        if prepared(s, op, guild, m, out) {
            let c = s.columns@[j];
            let p = out[c.id@];
            assert(parsed(input_value(m, c.id@), c.column_type, c.id@, Ok(p)));
            null_input_rejected(input_value(m, c.id@), c.column_type, c.id@, p, done(), guild);
        }
    }
}

/// The error that a column which may not be null, and neither is a token
/// column nor holds JSON, gives for an input that reads as null is the
/// null-value error naming the column.
pub proof fn required_null_error(c: Column, v: Value, e: SettingsError, guild: u64)
    requires
        !c.nullable,
        !holds_json(c.column_type),
        !is_token_column(c.column_type),
        null_input(c, v),
        column_refuses(c, guild, v, e),
    ensures
        e matches SettingsError::SchemaNullValueValidationError { column } && column@ == c.id@,
{
    assert(!parsed(v, c.column_type, c.id@, Err(e)));
    let w = choose|w: Value| parsed(v, c.column_type, c.id@, Ok(w)) && value_checked(w, c.column_type, guild, c.id@, c.nullable, Err(e));
    assert(w is Null);
}

/// A create or an update on a setting with one column, which may not
/// be null, and whose input reads as null, fails with the validate pass's
/// null-value error naming that column (the later null check is never
/// reached).
pub proof fn lone_required_null_column_error(s: Setting, op: OperationType, m: Map<Seq<char>, Value>, e: SettingsError, guild: u64)
    requires
        s.columns@.len() == 1,
        !s.columns@[0].is_ignored_for(op),
        !s.columns@[0].nullable,
        !holds_json(s.columns@[0].column_type),
        !is_token_column(s.columns@[0].column_type),
        null_input(s.columns@[0], input_value(m, s.columns@[0].id@)),
        fields_refused(s, op, guild, m, e),
    ensures
        e matches SettingsError::SchemaNullValueValidationError { column } && column@ == s.columns@[0].id@,
{
    let j = choose|j: int|
        0 <= j < s.columns@.len() && !(#[trigger] s.columns@[j]).is_ignored_for(op) && column_refuses(
            s.columns@[j],
            guild,
            input_value(m, s.columns@[j].id@),
            e,
        ) && forall|i: int|
            0 <= i < j && !(#[trigger] s.columns@[i]).is_ignored_for(op) ==> exists|w: Value|
                column_accepts(s.columns@[i], guild, input_value(m, s.columns@[i].id@), w);
    assert(j == 0);
    required_null_error(s.columns@[0], input_value(m, s.columns@[0].id@), e, guild);
}

/// A token column that a create or an update does not ignore reaches the
/// hook as a token of its default length when its input reads as null.
pub proof fn token_reaches_hook(s: Setting, op: OperationType, m: Map<Seq<char>, Value>, out: Map<Seq<char>, Value>, j: int, guild: u64)
    requires
        prepared(s, op, guild, m, out),
        0 <= j < s.columns@.len(),
        !s.columns@[j].is_ignored_for(op),
        is_token_column(s.columns@[j].column_type),
        input_value(m, s.columns@[j].id@) is Null || empty_text(input_value(m, s.columns@[j].id@)),
    ensures
        out[s.columns@[j].id@] matches Value::String(t)
            && t@.len() == s.columns@[j].column_type->Scalar_inner->String_kind->Token_default_length,
{
    let c = s.columns@[j];
    token_fills_itself_in(input_value(m, c.id@), c.column_type, c.id@, out[c.id@], done(), guild);
}

/// The union of the entries of a table that `picks` chooses.
pub open spec fn union_of(t: Seq<(Seq<char>, i64)>, picks: Seq<bool>) -> i64
    decreases t.len(),
{
    if t.len() == 0 || picks.len() == 0 {
        0
    } else if picks.last() {
        union_of(t.drop_last(), picks.drop_last()) | t.last().1
    } else {
        union_of(t.drop_last(), picks.drop_last())
    }
}

proof fn lemma_mask_within(t: Seq<(Seq<char>, i64)>, v: i64)
    ensures
        flag_mask(t, v) & !v == 0,
    decreases t.len(),
{
    if t.len() > 0 {
        lemma_mask_within(t.drop_last(), v);
        let acc = flag_mask(t.drop_last(), v);
        let b = t.last().1;
        if b & v == b {
            assert((acc & !v == 0 && b & v == b) ==> ((acc | b) & !v == 0)) by (bit_vector);
        }
    } else {
        assert(0i64 & !v == 0) by (bit_vector);
    }
}

proof fn lemma_union_covered(t: Seq<(Seq<char>, i64)>, picks: Seq<bool>, v: i64)
    requires
        picks.len() == t.len(),
        union_of(t, picks) & !v == 0,
    ensures
        union_of(t, picks) & !flag_mask(t, v) == 0,
    decreases t.len(),
{
    if t.len() > 0 {
        let u = union_of(t.drop_last(), picks.drop_last());
        let acc = flag_mask(t.drop_last(), v);
        let b = t.last().1;
        if picks.last() {
            assert(((u | b) & !v == 0) ==> (u & !v == 0 && b & v == b)) by (bit_vector);
            lemma_union_covered(t.drop_last(), picks.drop_last(), v);
            assert((u & !acc == 0) ==> ((u | b) & !(acc | b) == 0)) by (bit_vector);
        } else {
            lemma_union_covered(t.drop_last(), picks.drop_last(), v);
            if b & v == b {
                assert((u & !acc == 0) ==> (u & !(acc | b) == 0)) by (bit_vector);
            }
        }
    } else {
        let m = flag_mask(t, v);
        assert(0i64 & !m == 0) by (bit_vector);
    }
}

proof fn lemma_mask_empty(t: Seq<(Seq<char>, i64)>, v: i64)
    requires
        v == 0 || forall|i: int| 0 <= i < t.len() ==> (#[trigger] t[i]).1 & v != t[i].1,
    ensures
        flag_mask(t, v) == 0,
    decreases t.len(),
{
    if t.len() > 0 {
        assert forall|i: int| 0 <= i < t.len() - 1 implies (#[trigger] t.drop_last()[i]).1 & v != t.drop_last()[i].1 || v == 0 by {
            assert(t.drop_last()[i] == t[i]);
        }
        lemma_mask_empty(t.drop_last(), v);
        let b = t.last().1;
        if v == 0 {
            assert((b & v == b && v == 0) ==> (0i64 | b) == 0) by (bit_vector);
        } else {
            assert(t.last() == t[t.len() - 1]);
        }
    }
}

proof fn lemma_entry_in_mask(t: Seq<(Seq<char>, i64)>, v: i64, i: int)
    requires
        0 <= i < t.len(),
        t[i].1 & v == t[i].1,
    ensures
        t[i].1 & flag_mask(t, v) == t[i].1,
    decreases t.len(),
{
    let b = t[i].1;
    let acc = flag_mask(t.drop_last(), v);
    let last = t.last().1;
    if i == t.len() - 1 {
        assert(b == last);
        assert(b & (acc | b) == b) by (bit_vector);
    } else {
        assert(t.drop_last()[i] == t[i]);
        lemma_entry_in_mask(t.drop_last(), v, i);
        assert((b & acc == b) ==> (b & (acc | last) == b)) by (bit_vector);
    }
}

proof fn lemma_mask_same_prefix(t: Seq<(Seq<char>, i64)>, v: i64, n: int)
    requires
        0 <= n <= t.len(),
    ensures
        flag_mask(t.subrange(0, n), flag_mask(t, v)) == flag_mask(t.subrange(0, n), v),
    decreases n,
{
    let m = flag_mask(t, v);
    if n > 0 {
        let p = t.subrange(0, n);
        assert(p.drop_last() == t.subrange(0, n - 1));
        assert(p.last() == t[n - 1]);
        lemma_mask_same_prefix(t, v, n - 1);
        let b = t[n - 1].1;
        lemma_mask_within(t, v);
        if b & v == b {
            lemma_entry_in_mask(t, v, n - 1);
        } else {
            assert((m & !v == 0 && b & v != b) ==> b & m != b) by (bit_vector);
        }
    }
}

/// What a bit-flag column makes of an integer, it makes again of the result.
proof fn lemma_flag_stable(t: Seq<(Seq<char>, i64)>, v: i64, x: i64)
    requires
        flag_value(t, v) == Some(x),
    ensures
        flag_value(t, x) == Some(x),
{
    if flag_mask(t, v) != 0 {
        lemma_mask_same_prefix(t, v, t.len() as int);
        assert(t.subrange(0, t.len() as int) == t);
    } else {
        lemma_default_stable(t);
    }
}

/// The default of a bit-flag table is kept by the column.
proof fn lemma_default_stable(t: Seq<(Seq<char>, i64)>)
    requires
        t.len() > 0,
    ensures
        flag_value(t, t[0].1) == Some(t[0].1),
{
    let d = t[0].1;
    if d == 0 {
        lemma_mask_empty(t, d);
    } else {
        assert(d & d == d) by (bit_vector);
        lemma_entry_in_mask(t, d, 0);
        lemma_mask_within(t, d);
        let m = flag_mask(t, d);
        assert((d & m == d && m & !d == 0) ==> m == d) by (bit_vector);
    }
}

/// Parsing, in a bit-flag column, an integer made only of whole entries of
/// the column's table gives the same integer back.
pub proof fn bitflag_keeps_legal_bits(values: FlagTable, picks: Seq<bool>, col: Seq<char>, r: Result<Value, SettingsError>)
    requires
        picks.len() == flag_entries(values).len(),
        union_of(flag_entries(values), picks) != 0,
        parsed_scalar(Value::Integer(union_of(flag_entries(values), picks)), InnerColumnType::BitFlag { values }, col, r),
    ensures
        r == ok(Value::Integer(union_of(flag_entries(values), picks))),
{
    let t = flag_entries(values);
    let v = union_of(t, picks);
    assert(v & !v == 0) by (bit_vector);
    lemma_mask_within(t, v);
    lemma_union_covered(t, picks, v);
    let m = flag_mask(t, v);
    assert((m & !v == 0 && v & !m == 0) ==> m == v) by (bit_vector);
}

/// Parsing, in a bit-flag column whose table is not empty, zero or an
/// integer that holds no whole entry of the table gives the table's first
/// entry, its default.
pub proof fn bitflag_falls_back_to_default(values: FlagTable, v: i64, col: Seq<char>, r: Result<Value, SettingsError>)
    requires
        flag_entries(values).len() > 0,
        v == 0 || forall|i: int| 0 <= i < flag_entries(values).len() ==> (#[trigger] flag_entries(values)[i]).1 & v != flag_entries(values)[i].1,
        parsed_scalar(Value::Integer(v), InnerColumnType::BitFlag { values }, col, r),
    ensures
        r == ok(Value::Integer(flag_entries(values)[0].1)),
{
    lemma_mask_empty(flag_entries(values), v);
}

/// Parsing, in a bit-flag column, the decimal text of an integer made only
/// of whole entries of the column's table gives that integer.
pub proof fn bitflag_text_keeps_legal_bits(values: FlagTable, picks: Seq<bool>, s: String, col: Seq<char>, r: Result<Value, SettingsError>)
    requires
        picks.len() == flag_entries(values).len(),
        union_of(flag_entries(values), picks) != 0,
        s@.len() > 0,
        signed_decimal(s@) == Some(union_of(flag_entries(values), picks) as int),
        parsed_scalar(Value::String(s), InnerColumnType::BitFlag { values }, col, r),
    ensures
        r == ok(Value::Integer(union_of(flag_entries(values), picks))),
{
    let x = union_of(flag_entries(values), picks);
    let t = flag_entries(values);
    let v = x;
    assert(v & !v == 0) by (bit_vector);
    lemma_mask_within(t, v);
    lemma_union_covered(t, picks, v);
    let m = flag_mask(t, v);
    assert((m & !v == 0 && v & !m == 0) ==> m == v) by (bit_vector);
}

/// Parsing, in a bit-flag column whose table is not empty, the empty text,
/// or the decimal text of zero or of an integer that holds no whole entry,
/// gives the table's first entry.
pub proof fn bitflag_text_falls_back_to_default(values: FlagTable, s: String, v: i64, col: Seq<char>, r: Result<Value, SettingsError>)
    requires
        flag_entries(values).len() > 0,
        s@.len() == 0 || (signed_decimal(s@) == Some(v as int) && (v == 0 || forall|i: int|
            0 <= i < flag_entries(values).len() ==> (#[trigger] flag_entries(values)[i]).1 & v != flag_entries(values)[i].1)),
        parsed_scalar(Value::String(s), InnerColumnType::BitFlag { values }, col, r),
    ensures
        r == ok(Value::Integer(flag_entries(values)[0].1)),
{
    if s@.len() > 0 {
        lemma_mask_empty(flag_entries(values), v);
    }
}

/// Whether the column's token kind, if it is one, makes tokens of at least
/// one character.
pub open spec fn tokens_not_empty(inner: InnerColumnType) -> bool {
    inner matches InnerColumnType::String { kind: InnerColumnTypeStringKind::Token { default_length }, .. } ==> default_length > 0
}

/// Parsing again what the parse pass made of a value, in a column that
/// does not hold JSON, gives it back unchanged.
pub proof fn reparse_of_parsed_is_identity(v: Value, inner: InnerColumnType, col: Seq<char>, w: Value, r: Result<Value, SettingsError>)
    requires
        !(inner is Json),
        tokens_not_empty(inner),
        parsed_scalar(v, inner, col, ok(w)),
        parsed_scalar(w, inner, col, r),
    ensures
        r == ok(w),
{
    if inner is BitFlag && w is Integer {
        let t = flag_entries(inner->BitFlag_values);
        let x = w->Integer_0;
        match v {
            Value::Integer(i) => lemma_flag_stable(t, i, x),
            Value::String(s) => {
                if s@.len() == 0 {
                    lemma_default_stable(t);
                } else {
                    let n = signed_decimal(s@)->Some_0;
                    lemma_flag_stable(t, n as i64, x);
                }
            },
            _ => {},
        }
    }
}

/// Parsing again what the parse pass made of a list, in an array column
/// that does not hold JSON, gives the same items back.
pub proof fn reparse_of_parsed_list_is_identity(l: Seq<Value>, inner: InnerColumnType, col: Seq<char>, out: Vec<Value>, r: Result<Value, SettingsError>)
    requires
        !(inner is Json),
        tokens_not_empty(inner),
        list_parsed(l, inner, col, ok(Value::List(out))),
        list_parsed(out@, inner, col, r),
    ensures
        r matches Ok(Value::List(out2)) && out2@ == out@,
{
    assert forall|i: int, r2: Result<Value, SettingsError>| 0 <= i < out@.len() && #[trigger] parsed_scalar(out@[i], inner, element_column(col, i), r2)
        implies r2 == ok(out@[i]) by {
        reparse_of_parsed_is_identity(l[i], inner, element_column(col, i), out@[i], r2);
    }
    if r is Err {
        let k = choose|k: int| 0 <= k < out@.len() && parsed_scalar(#[trigger] out@[k], inner, element_column(col, k), r) && forall|i: int|
            0 <= i < k ==> exists|w: Value| parsed_scalar(#[trigger] out@[i], inner, element_column(col, i), ok(w));
        assert(parsed_scalar(out@[k], inner, element_column(col, k), r));
    } else {
        let out2 = r->Ok_0->List_0;
        assert forall|i: int| 0 <= i < out@.len() implies out2@[i] == out@[i] by {
            assert(parsed_scalar(out@[i], inner, element_column(col, i), ok(out2@[i])));
        }
        assert(out2@ =~= out@);
    }
}

/// A list whose every element the parse pass accepts parses to the list of
/// their parses, in order, with none dropped.
pub proof fn array_parse_keeps_all_elements(l: Seq<Value>, inner: InnerColumnType, col: Seq<char>, r: Result<Value, SettingsError>)
    requires
        forall|i: int, e: SettingsError| 0 <= i < l.len() ==> !#[trigger] parsed_scalar(l[i], inner, element_column(col, i), Err(e)),
        list_parsed(l, inner, col, r),
    ensures
        r matches Ok(Value::List(out)) && out@.len() == l.len() && forall|i: int|
            0 <= i < l.len() ==> parsed_scalar(#[trigger] l[i], inner, element_column(col, i), ok(out@[i])),
{
    if r is Err {
        let k = choose|k: int| 0 <= k < l.len() && parsed_scalar(#[trigger] l[k], inner, element_column(col, k), r) && forall|i: int|
            0 <= i < k ==> exists|w: Value| parsed_scalar(#[trigger] l[i], inner, element_column(col, i), ok(w));
        assert(parsed_scalar(l[k], inner, element_column(col, k), Err(r->Err_0)));
    }
}

/// Whether `v` is already the canonical value of a column of kind `inner`.
pub open spec fn canonical(v: Value, inner: InnerColumnType) -> bool {
    match inner {
        InnerColumnType::Uuid => v is Uuid,
        InnerColumnType::String { .. } => v matches Value::String(s) && s@.len() > 0,
        InnerColumnType::Timestamp => v is Timestamp,
        InnerColumnType::TimestampTz => v is TimestampTz,
        InnerColumnType::Interval => v is Interval,
        InnerColumnType::Integer => v is Integer,
        InnerColumnType::Float => v is Float,
        InnerColumnType::Boolean => v is Boolean,
        InnerColumnType::BitFlag { values } => v matches Value::Integer(b) && b != 0 && flag_mask(flag_entries(values), b) == b,
        InnerColumnType::Json { max_bytes } => v matches Value::Json(t) && (max_bytes matches Some(m) ==> byte_len(t@) <= m),
    }
}

/// Parsing a value that is already canonical for its column gives it back
/// unchanged.
pub proof fn reparse_is_identity(v: Value, inner: InnerColumnType, col: Seq<char>, r: Result<Value, SettingsError>)
    requires
        canonical(v, inner),
        parsed_scalar(v, inner, col, r),
    ensures
        r == ok(v),
{
}

/// A list with an element that the parse pass refuses is refused, with the
/// error of that element or of one before it, which names the element by its
/// index: no element is dropped.
pub proof fn array_parse_keeps_every_element(l: Seq<Value>, inner: InnerColumnType, col: Seq<char>, k: int, r: Result<Value, SettingsError>)
    requires
        0 <= k < l.len(),
        forall|w: Value| !parsed_scalar(l[k], inner, element_column(col, k), #[trigger] ok(w)),
        list_parsed(l, inner, col, r),
    ensures
        r is Err,
        exists|i: int| 0 <= i <= k && parsed_scalar(#[trigger] l[i], inner, element_column(col, i), r),
{
    if r is Ok {
        let out = r->Ok_0->List_0;
        assert(parsed_scalar(l[k], inner, element_column(col, k), ok(out@[k])));
    }
    let i = choose|i: int| 0 <= i < l.len() && parsed_scalar(#[trigger] l[i], inner, element_column(col, i), r) && forall|j: int|
        0 <= j < i ==> exists|w: Value| parsed_scalar(#[trigger] l[j], inner, element_column(col, j), ok(w));
    if i > k {
        let w = choose|w: Value| parsed_scalar(l[k], inner, element_column(col, k), ok(w));
    }
}

/// A list with an element that the validate pass refuses is refused, with
/// the error of that element or of one before it.
pub proof fn array_validation_keeps_every_element(l: Seq<Value>, inner: InnerColumnType, col: Seq<char>, nullable: bool, k: int, r: Result<(), SettingsError>, guild: u64)
    requires
        0 <= k < l.len(),
        !scalar_checked(l[k], inner, guild, element_column(col, k), nullable, done()),
        list_checked(l, inner, guild, col, nullable, r),
    ensures
        r is Err,
        exists|i: int| 0 <= i <= k && scalar_checked(#[trigger] l[i], inner, guild, element_column(col, i), nullable, r),
{
    let i = choose|i: int| 0 <= i < l.len() && scalar_checked(#[trigger] l[i], inner, guild, element_column(col, i), nullable, r) && forall|j: int|
        0 <= j < i ==> scalar_checked(#[trigger] l[j], inner, guild, element_column(col, j), nullable, done());
    if i > k {
        assert(scalar_checked(l[k], inner, guild, element_column(col, k), nullable, done()));
    }
}

/// A secret column never appears in a record that a view returns.
pub proof fn view_hides_secrets(s: Setting, m: Map<Seq<char>, Value>, out: Map<Seq<char>, Value>, j: int)
    requires
        viewed(s, m, out),
        0 <= j < s.columns@.len(),
        s.columns@[j].secret,
    ensures
        !out.contains_key(s.columns@[j].id@),
{
}

/// A secret column that the operation does not ignore is in the state that
/// a create or an update hands to its hook.
pub proof fn hooks_receive_secrets(s: Setting, op: OperationType, m: Map<Seq<char>, Value>, out: Map<Seq<char>, Value>, j: int, guild: u64)
    requires
        op == OperationType::Create || op == OperationType::Update,
        prepared(s, op, guild, m, out),
        0 <= j < s.columns@.len(),
        s.columns@[j].secret,
        !s.columns@[j].is_ignored_for(op),
    ensures
        out.contains_key(s.columns@[j].id@),
{
}

} // verus!
