//! Text conversions that the engine takes from std and from outside crates,
//! with the specification functions that describe them.
use rand::Rng;
use vstd::arithmetic::power2::pow2;
use vstd::prelude::*;

verus! {

pub open spec fn is_digit(c: char) -> bool {
    '0' <= c && c <= '9'
}

pub open spec fn digit_value(c: char) -> int {
    (c as u32) as int - ('0' as u32) as int
}

pub open spec fn all_digits(d: Seq<char>) -> bool {
    d.len() > 0 && forall|i: int| 0 <= i < d.len() ==> is_digit(#[trigger] d[i])
}

/// The number that a string of decimal digits stands for.
pub open spec fn digits_value(d: Seq<char>) -> int
    decreases d.len(),
{
    if d.len() == 0 {
        0
    } else {
        10 * digits_value(d.drop_last()) + digit_value(d.last())
    }
}

/// Decimal digits after an optional `+`: the number, if the text is one.
pub open spec fn unsigned_decimal(s: Seq<char>) -> Option<int> {
    let d = if s.len() > 0 && s[0] == '+' { s.drop_first() } else { s };
    if all_digits(d) { Some(digits_value(d)) } else { None }
}

/// Decimal digits after an optional `+` or `-`: the number, if the text is one.
pub open spec fn signed_decimal(s: Seq<char>) -> Option<int> {
    if s.len() > 0 && s[0] == '-' {
        if all_digits(s.drop_first()) { Some(-digits_value(s.drop_first())) } else { None }
    } else {
        unsigned_decimal(s)
    }
}

/// The digit character of `n` in 0..16, lower case.
pub open spec fn hex_digit(n: int) -> char {
    if n < 10 { ((('0' as u32) as int + n) as u32) as char }
    else { ((('a' as u32) as int + n - 10) as u32) as char }
}

pub open spec fn digit_char(n: int) -> char {
    ((('0' as u32) as int + n) as u32) as char
}

/// The decimal digits of a natural number, without sign or leading zeros.
pub open spec fn nat_text(n: nat) -> Seq<char>
    decreases n,
{
    if n < 10 {
        seq![digit_char(n as int)]
    } else {
        nat_text(n / 10) + seq![digit_char((n % 10) as int)]
    }
}

/// An integer in decimal, with a `-` before a negative one.
pub open spec fn int_text(n: int) -> Seq<char> {
    if n < 0 { seq!['-'] + nat_text((-n) as nat) } else { nat_text(n as nat) }
}

/// The 4-bit group `j` (0 is the most significant) of a 128-bit value.
pub open spec fn uuid_nibble(u: u128, j: int) -> int {
    ((u as int) / pow2((4 * (31 - j)) as nat) as int) % 16
}

/// The position among the 32 hex digits of the character at `i` in the
/// hyphenated form (8-4-4-4-12).
pub open spec fn uuid_digit_index(i: int) -> int {
    if i < 8 { i } else if i < 13 { i - 1 } else if i < 18 { i - 2 } else if i < 23 { i - 3 } else { i - 4 }
}

/// The hyphenated lower-case text of a UUID.
pub open spec fn uuid_text(u: u128) -> Seq<char> {
    Seq::new(
        36,
        |i: int|
            if i == 8 || i == 13 || i == 18 || i == 23 { '-' } else { hex_digit(uuid_nibble(u, uuid_digit_index(i))) },
    )
}

/// The characters that a random token is drawn from.
pub open spec fn is_alphanumeric_ascii(c: char) -> bool {
    ('0' <= c && c <= '9') || ('a' <= c && c <= 'z') || ('A' <= c && c <= 'Z')
}

/// What `Uuid::parse_str` gives for a text, as the 128 bits of the identifier.
pub uninterp spec fn uuid_of_text(s: Seq<char>) -> Option<u128>;

/// What chrono reads from a text in the form `YYYY-MM-DD HH:MM:SS`, as
/// seconds and nanoseconds since the epoch.
pub uninterp spec fn naive_timestamp_of_text(s: Seq<char>) -> Option<(i64, u32)>;

/// What chrono reads from an RFC 3339 text, as seconds and nanoseconds since
/// the epoch.
pub uninterp spec fn rfc3339_of_text(s: Seq<char>) -> Option<(i64, u32)>;

/// The RFC 3339 text that chrono writes for an instant, where chrono can
/// represent it.
pub uninterp spec fn rfc3339_text(secs: i64, nanos: u32) -> Option<Seq<char>>;

/// How serde_json writes one character inside a JSON string: the quote and
/// the backslash escaped, `\b \t \n \f \r` for those controls, `\u00XX`
/// (lower-case hex) for the other controls, anything else as it is.
pub open spec fn json_escaped_char(c: char) -> Seq<char> {
    let n = c as u32;
    if c == '"' {
        seq!['\\', '"']
    } else if c == '\\' {
        seq!['\\', '\\']
    } else if n == 8 {
        seq!['\\', 'b']
    } else if n == 9 {
        seq!['\\', 't']
    } else if n == 10 {
        seq!['\\', 'n']
    } else if n == 12 {
        seq!['\\', 'f']
    } else if n == 13 {
        seq!['\\', 'r']
    } else if n < 32 {
        seq!['\\', 'u', '0', '0', hex_digit((n / 16) as int), hex_digit((n % 16) as int)]
    } else {
        seq![c]
    }
}

/// The characters of a text, each as serde_json writes it in a string.
pub open spec fn json_escaped(s: Seq<char>) -> Seq<char>
    decreases s.len(),
{
    if s.len() == 0 {
        Seq::empty()
    } else {
        json_escaped(s.drop_last()) + json_escaped_char(s.last())
    }
}

/// The JSON string literal that serde_json writes for a text.
pub open spec fn json_string_text(s: Seq<char>) -> Seq<char> {
    seq!['"'] + json_escaped(s) + seq!['"']
}

/// The compact text that serde_json writes back for a JSON document, where
/// the document is well formed.
pub uninterp spec fn json_reformatted(s: Seq<char>) -> Option<Seq<char>>;

/// Whether a character is in one of Unicode's numeric general categories.
pub uninterp spec fn char_is_numeric(c: char) -> bool;

/// Whether a character is numeric: among ASCII characters, the ten digits.
pub open spec fn numeric_char(c: char) -> bool {
    if (c as u32) < 128 { is_digit(c) } else { char_is_numeric(c) }
}

/// Relies on `uuid::Uuid::parse_str`.
#[verifier::external_body]
pub(crate) fn parse_uuid(s: &str) -> (r: Option<u128>)
    ensures
        r == uuid_of_text(s@),
{
    match uuid::Uuid::parse_str(s) {
        Ok(u) => Some(u.as_u128()),
        Err(_) => None,
    }
}

/// Relies on `Display` of `uuid::Uuid`: the hyphenated lower-case form.
#[verifier::external_body]
pub(crate) fn uuid_to_text(u: u128) -> (r: String)
    ensures
        r@ == uuid_text(u),
{
    uuid::Uuid::from_u128(u).to_string()
}

/// Relies on `chrono::NaiveDateTime::parse_from_str` with the format
/// `%Y-%m-%d %H:%M:%S`; the result is read as UTC.
#[verifier::external_body]
pub(crate) fn parse_naive_timestamp(s: &str) -> (r: Option<(i64, u32)>)
    ensures
        r == naive_timestamp_of_text(s@),
{
    match chrono::NaiveDateTime::parse_from_str(s, "%Y-%m-%d %H:%M:%S") {
        Ok(d) => Some((d.and_utc().timestamp(), d.and_utc().timestamp_subsec_nanos())),
        Err(_) => None,
    }
}

/// Relies on `chrono::DateTime::parse_from_rfc3339`; the offset is folded
/// into the instant.
#[verifier::external_body]
pub(crate) fn parse_rfc3339(s: &str) -> (r: Option<(i64, u32)>)
    ensures
        r == rfc3339_of_text(s@),
{
    match chrono::DateTime::parse_from_rfc3339(s) {
        Ok(d) => Some((d.timestamp(), d.timestamp_subsec_nanos())),
        Err(_) => None,
    }
}

/// Relies on `chrono::DateTime::<Utc>::to_rfc3339`, for the instants that
/// `DateTime::from_timestamp` accepts.
#[verifier::external_body]
pub(crate) fn timestamp_to_rfc3339(secs: i64, nanos: u32) -> (r: Option<String>)
    ensures
        r matches Some(t) ==> rfc3339_text(secs, nanos) == Some(t@),
        r is None ==> rfc3339_text(secs, nanos) is None,
{
    match chrono::DateTime::from_timestamp(secs, nanos) {
        Some(d) => Some(d.to_rfc3339()),
        None => None,
    }
}

/// Relies on `Display` of `serde_json::Value::String`: the quoted, escaped
/// literal.
#[verifier::external_body]
pub(crate) fn json_quote(s: &str) -> (r: String)
    ensures
        r@ == json_string_text(s@),
{
    serde_json::Value::String(s.to_string()).to_string()
}

/// Relies on `serde_json::from_str` into a `serde_json::Value`, written back
/// by its `Display`.
#[verifier::external_body]
pub(crate) fn json_reformat(s: &str) -> (r: Option<String>)
    ensures
        r matches Some(t) ==> json_reformatted(s@) == Some(t@),
        r is None ==> json_reformatted(s@) is None,
{
    match serde_json::from_str::<serde_json::Value>(s) {
        Ok(v) => Some(v.to_string()),
        Err(_) => None,
    }
}

/// Relies on rand's `Alphanumeric` distribution on the thread-local
/// generator: `len` characters from `A-Z`, `a-z` and `0-9`.
#[verifier::external_body]
pub(crate) fn gen_random(len: usize) -> (r: String)
    ensures
        r@.len() == len,
        forall|i: int| 0 <= i < r@.len() ==> is_alphanumeric_ascii(#[trigger] r@[i]),
{
    rand::thread_rng().sample_iter(&rand::distributions::Alphanumeric).take(len).map(char::from).collect()
}

/// Relies on `i64::from_str`: decimal digits after an optional sign, within
/// range.
#[verifier::external_body]
pub(crate) fn parse_i64(s: &str) -> (r: Option<i64>)
    ensures
        r matches Some(n) ==> signed_decimal(s@) == Some(n as int),
        r is None ==> !(signed_decimal(s@) matches Some(n) && i64::MIN <= n <= i64::MAX),
{
    s.parse::<i64>().ok()
}

/// Relies on `Display` of `i128`: the decimal text.
#[verifier::external_body]
pub(crate) fn int_to_text(n: i128) -> (r: String)
    ensures
        r@ == int_text(n as int),
{
    n.to_string()
}

/// Relies on `char::is_numeric`. The ASCII characters in Unicode's numeric
/// categories are the ten digits.
#[verifier::external_body]
pub(crate) fn is_numeric(c: char) -> (r: bool)
    ensures
        r == char_is_numeric(c),
        (c as u32) < 128 ==> (r == is_digit(c)),
{
    c.is_numeric()
}

/// A snowflake id: the nonzero `u64` that a decimal text stands for.
pub open spec fn snowflake_of_text(s: Seq<char>) -> Option<u64> {
    match unsigned_decimal(s) {
        Some(n) => if 0 < n <= u64::MAX { Some(n as u64) } else { None },
        None => None,
    }
}

/// Relies on `FromStr` of serenity's `RoleId`, which reads a `NonZeroU64`.
#[verifier::external_body]
pub(crate) fn parse_role_id(s: &str) -> (r: Option<u64>)
    ensures
        r == snowflake_of_text(s@),
{
    match s.parse::<serenity::all::RoleId>() {
        Ok(id) => Some(id.get()),
        Err(_) => None,
    }
}

/// Relies on `FromStr` of serenity's `UserId`, which reads a `NonZeroU64`.
#[verifier::external_body]
pub(crate) fn parse_user_id(s: &str) -> (r: Option<u64>)
    ensures
        r == snowflake_of_text(s@),
{
    match s.parse::<serenity::all::UserId>() {
        Ok(id) => Some(id.get()),
        Err(_) => None,
    }
}

/// Relies on `FromStr` of serenity's `ChannelId`, which reads a `NonZeroU64`.
#[verifier::external_body]
pub(crate) fn parse_channel_id(s: &str) -> (r: Option<u64>)
    ensures
        r == snowflake_of_text(s@),
{
    match s.parse::<serenity::all::ChannelId>() {
        Ok(id) => Some(id.get()),
        Err(_) => None,
    }
}

} // verus!

verus! {

/// What `str::replace` gives: the matches of `from` in `s`, found from left
/// to right without overlap, replaced by `to`. An empty `from` matches
/// before every character and at the end.
pub open spec fn text_replaced(s: Seq<char>, from: Seq<char>, to: Seq<char>) -> Seq<char>
    decreases s.len(),
{
    if from.len() == 0 {
        if s.len() == 0 { to } else { to + seq![s[0]] + text_replaced(s.drop_first(), from, to) }
    } else if s.len() < from.len() {
        s
    } else if s.subrange(0, from.len() as int) == from {
        to + text_replaced(s.subrange(from.len() as int, s.len() as int), from, to)
    } else {
        seq![s[0]] + text_replaced(s.drop_first(), from, to)
    }
}

/// Relies on `str::replace`.
#[verifier::external_body]
pub(crate) fn replace_text(s: &str, from: &str, to: &str) -> (r: String)
    ensures
        r@ == text_replaced(s@, from@, to@),
{
    s.replace(from, to)
}

/// The `u64` that a decimal text stands for, if it fits.
pub open spec fn u64_of_text(s: Seq<char>) -> Option<u64> {
    match unsigned_decimal(s) {
        Some(n) => if n <= u64::MAX { Some(n as u64) } else { None },
        None => None,
    }
}

/// Relies on `u64::from_str`: decimal digits after an optional `+`, within
/// range.
#[verifier::external_body]
pub(crate) fn parse_u64(s: &str) -> (r: Option<u64>)
    ensures
        r == u64_of_text(s@),
{
    s.parse::<u64>().ok()
}

} // verus!

verus! {

/// The `u32` that a decimal text stands for, if it fits.
pub open spec fn u32_of_text(s: Seq<char>) -> Option<u32> {
    match unsigned_decimal(s) {
        Some(n) => if n <= u32::MAX { Some(n as u32) } else { None },
        None => None,
    }
}

/// Relies on `u32::from_str`: decimal digits after an optional `+`, within
/// range.
#[verifier::external_body]
pub(crate) fn parse_u32(s: &str) -> (r: Option<u32>)
    ensures
        r == u32_of_text(s@),
{
    s.parse::<u32>().ok()
}

} // verus!
