//! The validate pass: the checks that a parsed value must pass, some of them
//! through lookups on the platform, followed by the null check.
use crate::codec::{int_text, int_to_text, parse_channel_id, parse_role_id, parse_user_id, snowflake_of_text};
use crate::context::{BotPermissionError, ChannelInfo, ExecutionContext};
use crate::error::{check_err, check_error_text, element_column, element_name, type_err, type_error, SettingsError};
use crate::parse::{below, below_text, byte_len};
use crate::schema::{ColumnType, InnerColumnType, InnerColumnTypeStringKind};
use crate::value::{kind_name, Value};
use vstd::prelude::*;

verus! {

/// `r` is the error for a null value in column `col`, which may not be null.
pub open spec fn null_error<T>(r: Result<T, SettingsError>, col: Seq<char>) -> bool {
    r matches Err(SettingsError::SchemaNullValueValidationError { column }) && column@ == col
}

pub open spec fn done() -> Result<(), SettingsError> {
    Ok(())
}

/// Whether a channel may be used: it belongs to the tenant, and its kind is
/// allowed (every kind is, when the list is empty).
pub open spec fn channel_allowed(info: ChannelInfo, guild_id: u64, allowed: Seq<u8>) -> bool {
    info.guild_id == Some(guild_id) && (allowed.len() == 0 || allowed.contains(info.kind))
}


/// `r` is the outcome of a template reference for the lookup's answer:
/// whether the tenant has a template of that name, or why the lookup failed.
pub open spec fn template_outcome(found: Result<bool, String>, col: Seq<char>, r: Result<(), SettingsError>) -> bool {
    match found {
        Ok(true) => r == done(),
        Ok(false) => check_error_text(r, col, "template_ref"@, "Valid template name"@, "Template not found"@),
        Err(why) => check_error_text(r, col, "template_ref"@, "Valid template name"@, why@),
    }
}

/// `r` is the outcome of a channel reference for the lookup's answer: the
/// channel, none, or why the lookup failed.
pub open spec fn channel_outcome(guild_id: u64, found: Result<Option<ChannelInfo>, String>, allowed: Seq<u8>, col: Seq<char>, r: Result<(), SettingsError>) -> bool {
    match found {
        Err(why) => check_error_text(r, col, "channel_check"@, "Valid channel id"@, why@),
        Ok(None) => check_error_text(r, col, "channel_check"@, "Valid channel id"@, "Channel not found"@),
        Ok(Some(info)) => if info.guild_id != Some(guild_id) {
            check_error_text(r, col, "channel_check"@, "Valid channel id"@, "Channel not in guild"@)
        } else if !channel_allowed(info, guild_id, allowed) {
            check_error_text(r, col, "allowed_channel_types"@, "an allowed channel kind"@, "Channel type not allowed"@)
        } else {
            r == done()
        },
    }
}

/// `r` is the outcome of the bot's permission check for the lookup's answer:
/// the bits that the bot holds in the channel, or why they are unknown.
pub open spec fn permission_outcome(held: Result<u64, BotPermissionError>, needed: u64, col: Seq<char>, r: Result<(), SettingsError>) -> bool {
    match held {
        Ok(p) => if p & needed == needed {
            r == done()
        } else {
            check_error_text(r, col, "bot_permissions"@, int_text(needed as int), "Bot does not have required permissions"@)
        },
        Err(BotPermissionError::BotUser(why)) => check_error_text(r, col, "bot_user"@, "Valid bot user"@, why@),
        Err(BotPermissionError::BotUserNotFound) => check_error_text(r, col, "bot_user"@, "Valid bot user"@, "Bot user not found"@),
        Err(BotPermissionError::Guild(why)) => check_error_text(r, col, "guild"@, "Valid guild"@, why@),
    }
}

/// Decides a template reference from the lookup's answer.
pub fn template_check(found: Result<bool, String>, col: &String) -> (r: Result<(), SettingsError>)
    ensures
        template_outcome(found, col@, r),
{
    match found {
        Ok(true) => Ok(()),
        Ok(false) => check_err(col, "template_ref", String::from_str("Valid template name"), String::from_str("Template not found")),
        Err(why) => check_err(col, "template_ref", String::from_str("Valid template name"), why),
    }
}

/// Decides a channel reference from the lookup's answer.
pub fn channel_check(guild_id: u64, found: Result<Option<ChannelInfo>, String>, allowed: &Vec<u8>, col: &String) -> (r: Result<(), SettingsError>)
    ensures
        channel_outcome(guild_id, found, allowed@, col@, r),
{
    let info = match found {
        Ok(Some(info)) => info,
        Ok(None) => {
            return check_err(col, "channel_check", String::from_str("Valid channel id"), String::from_str("Channel not found"));
        },
        Err(why) => {
            return check_err(col, "channel_check", String::from_str("Valid channel id"), why);
        },
    };
    if info.guild_id != Some(guild_id) {
        return check_err(col, "channel_check", String::from_str("Valid channel id"), String::from_str("Channel not in guild"));
    }
    if !check_channel(&info, guild_id, allowed) {
        return check_err(col, "allowed_channel_types", String::from_str("an allowed channel kind"), String::from_str("Channel type not allowed"));
    }
    Ok(())
}

/// Whether the channel lookup's answer lets the checks go on.
fn channel_passes(guild_id: u64, found: &Result<Option<ChannelInfo>, String>, allowed: &Vec<u8>, col: &String) -> (r: bool)
    ensures
        r == channel_outcome(guild_id, *found, allowed@, col@, done()),
{
    match found {
        Ok(Some(info)) => check_channel(info, guild_id, allowed),
        _ => false,
    }
}

/// Decides a channel column from the answers of both lookups in tenant
/// `guild_id`; `held` is read only when the channel passes and bits are
/// needed.
pub fn channel_column_check(
    guild_id: u64,
    found: Result<Option<ChannelInfo>, String>,
    held: Result<u64, BotPermissionError>,
    allowed: &Vec<u8>,
    needed: u64,
    col: &String,
) -> (r: Result<(), SettingsError>)
    ensures
        channel_decided(guild_id, found, held, allowed@, needed, col@, r),
{
    if !channel_passes(guild_id, &found, allowed, col) {
        return channel_check(guild_id, found, allowed, col);
    }
    if needed == 0 {
        return Ok(());
    }
    permission_check(held, needed, col)
}

/// Decides the bot's permission check from the lookup's answer.
pub fn permission_check(held: Result<u64, BotPermissionError>, needed: u64, col: &String) -> (r: Result<(), SettingsError>)
    ensures
        permission_outcome(held, needed, col@, r),
{
    match held {
        Ok(p) => {
            if has_permissions(p, needed) {
                Ok(())
            } else {
                check_err(col, "bot_permissions", int_to_text(needed as i128), String::from_str("Bot does not have required permissions"))
            }
        },
        Err(BotPermissionError::BotUser(why)) => check_err(col, "bot_user", String::from_str("Valid bot user"), why),
        Err(BotPermissionError::BotUserNotFound) => check_err(col, "bot_user", String::from_str("Valid bot user"), String::from_str("Bot user not found")),
        Err(BotPermissionError::Guild(why)) => check_err(col, "guild", String::from_str("Valid guild"), why),
    }
}

/// `r` is the outcome of a channel column's checks for the answers of its
/// lookups in tenant `guild`: the channel's (`found`), then, when the channel
/// passes and bits are needed, the bot's permissions (`held`, read only then).
pub open spec fn channel_decided(
    guild: u64,
    found: Result<Option<ChannelInfo>, String>,
    held: Result<u64, BotPermissionError>,
    allowed: Seq<u8>,
    needed: u64,
    col: Seq<char>,
    r: Result<(), SettingsError>,
) -> bool {
    if channel_outcome(guild, found, allowed, col, done()) {
        if needed == 0 { r == done() } else { permission_outcome(held, needed, col, r) }
    } else {
        channel_outcome(guild, found, allowed, col, r)
    }
}

/// `r` is a possible outcome of a channel column's checks on the text `s` in
/// tenant `guild`: the id's parse, then what the answers of the lookups
/// decide.
pub open spec fn channel_kind_checked(allowed: Seq<u8>, needed: u64, guild: u64, s: Seq<char>, col: Seq<char>, r: Result<(), SettingsError>) -> bool {
    if snowflake_of_text(s) is None {
        check_error_text(r, col, "snowflake_parse"@, "Valid channel id"@, "Channel id parse error"@)
    } else {
        exists|found: Result<Option<ChannelInfo>, String>, held: Result<u64, BotPermissionError>|
            #[trigger] channel_decided(guild, found, held, allowed, needed, col, r)
    }
}

/// `r` is a possible outcome of the checks that a string column's kind adds.
/// Those that need no lookup are exact; those that do give the outcome that
/// some answer of the lookups decides (`template_outcome`, `channel_outcome`,
/// `permission_outcome`).
pub open spec fn kind_checked(kind: InnerColumnTypeStringKind, guild: u64, s: Seq<char>, col: Seq<char>, r: Result<(), SettingsError>) -> bool {
    match kind {
        InnerColumnTypeStringKind::TemplateRef => exists|found: Result<bool, String>| #[trigger] template_outcome(found, col, r),
        InnerColumnTypeStringKind::Role => if snowflake_of_text(s) is None {
            check_error_text(r, col, "snowflake_parse"@, "Valid role id"@, "not a role id"@)
        } else {
            r == done()
        },
        InnerColumnTypeStringKind::User => if snowflake_of_text(s) is None {
            check_error_text(r, col, "snowflake_parse"@, "Valid user id"@, "not a user id"@)
        } else {
            r == done()
        },
        InnerColumnTypeStringKind::Channel { allowed_channel_types, needed_bot_permissions } => channel_kind_checked(
            allowed_channel_types@,
            needed_bot_permissions,
            guild,
            s,
            col,
            r,
        ),
        _ => r == done(),
    }
}

/// `r` is a possible outcome of the checks of a string column on the text `s`:
/// the length bounds (in bytes), the allowed values, then the kind's checks.
pub open spec fn string_checked(
    s: Seq<char>,
    min_length: Option<usize>,
    max_length: Option<usize>,
    allowed_values: Seq<String>,
    kind: InnerColumnTypeStringKind,
    guild: u64,
    col: Seq<char>,
    r: Result<(), SettingsError>,
) -> bool {
    if min_length matches Some(m) && byte_len(s) < m {
        check_error_text(r, col, "minlength"@, seq!['>'] + int_text(min_length->0 as int), "text shorter than the minimum"@)
    } else if max_length matches Some(m) && byte_len(s) > m {
        check_error_text(r, col, "maxlength"@, below_text(max_length->0), "text longer than the maximum"@)
    } else if allowed_values.len() > 0 && !(exists|i: int| 0 <= i < allowed_values.len() && (#[trigger] allowed_values[i])@ == s) {
        check_error_text(r, col, "allowed_values"@, allowed_range(allowed_values), "value not allowed"@)
    } else {
        kind_checked(kind, guild, s, col, r)
    }
}

/// `r` is a possible outcome of validating `v` in a column of kind `inner`.
pub open spec fn scalar_checked(v: Value, inner: InnerColumnType, guild: u64, col: Seq<char>, nullable: bool, r: Result<(), SettingsError>) -> bool {
    if v is Null {
        if nullable { r == done() } else { null_error(r, col) }
    } else if v is List && !(inner is Json) {
        type_error(r, col, "Scalar"@, "Array"@)
    } else {
        match inner {
            InnerColumnType::String { min_length, max_length, allowed_values, kind } => match v {
                Value::String(s) => string_checked(s@, min_length, max_length, allowed_values@, kind, guild, col, r),
                _ => type_error(r, col, "String"@, kind_name(v)),
            },
            _ => r == done(),
        }
    }
}

/// `r` is a possible outcome of validating the elements of a list: all pass,
/// or the first that fails gives its error, after every element before it
/// passed. An element's errors name it `col[i]`.
pub open spec fn list_checked(l: Seq<Value>, inner: InnerColumnType, guild: u64, col: Seq<char>, nullable: bool, r: Result<(), SettingsError>) -> bool {
    ||| (r is Ok && forall|i: int| 0 <= i < l.len() ==> scalar_checked(#[trigger] l[i], inner, guild, element_column(col, i), nullable, done()))
    ||| (r is Err && exists|k: int|
        0 <= k < l.len() && scalar_checked(#[trigger] l[k], inner, guild, element_column(col, k), nullable, r) && forall|i: int|
            0 <= i < k ==> scalar_checked(#[trigger] l[i], inner, guild, element_column(col, i), nullable, done()))
}

/// `r` is a possible outcome of validating `v` in a column of type `ct`.
pub open spec fn value_checked(v: Value, ct: ColumnType, guild: u64, col: Seq<char>, nullable: bool, r: Result<(), SettingsError>) -> bool {
    match ct {
        ColumnType::Scalar { inner } => scalar_checked(v, inner, guild, col, nullable, r),
        ColumnType::Array { inner } => match v {
            Value::Null => if nullable { r == done() } else { null_error(r, col) },
            Value::List(l) => list_checked(l@, inner, guild, col, nullable, r),
            _ => type_error(r, col, "Array"@, kind_name(v)),
        },
    }
}

/// Whether a channel may be used: it belongs to the tenant and is of an
/// allowed kind.
pub fn check_channel(info: &ChannelInfo, guild_id: u64, allowed: &Vec<u8>) -> (r: bool)
    ensures
        r == channel_allowed(*info, guild_id, allowed@),
{
    match info.guild_id {
        Some(g) => {
            if g != guild_id {
                return false;
            }
        },
        None => {
            return false;
        },
    }
    if allowed.len() == 0 {
        return true;
    }
    let mut i: usize = 0;
    while i < allowed.len()
        invariant
            i <= allowed.len(),
            info.guild_id == Some(guild_id),
            forall|j: int| 0 <= j < i ==> allowed@[j] != info.kind,
        decreases allowed.len() - i,
    {
        if allowed[i] == info.kind {
            return true;
        }
        i = i + 1;
    }
    false
}

/// Whether `held` has every bit of `needed`.
pub fn has_permissions(held: u64, needed: u64) -> (r: bool)
    ensures
        r == (held & needed == needed),
{
    held & needed == needed
}

fn check_channel_text<E: ExecutionContext>(
    env: &E,
    s: &String,
    guild_id: u64,
    allowed: &Vec<u8>,
    needed: u64,
    col: &String,
) -> (r: Result<(), SettingsError>)
    ensures
        channel_kind_checked(allowed@, needed, guild_id, s@, col@, r),
{
    let channel_id = match parse_channel_id(s.as_str()) {
        Some(id) => id,
        None => {
            return check_err(col, "snowflake_parse", String::from_str("Valid channel id"), String::from_str("Channel id parse error"));
        },
    };
    let found = env.channel(guild_id, channel_id);
    // The bot's permissions are looked up only when the channel passes and
    // bits are needed; otherwise the decision does not read them.
    let held = if channel_passes(guild_id, &found, allowed, col) && needed != 0 {
        env.bot_permissions(guild_id, channel_id)
    } else {
        Ok(0)
    };
    let ghost (f, h) = (found, held);
    let r = channel_column_check(guild_id, found, held, allowed, needed, col);
    assert(channel_decided(guild_id, f, h, allowed@, needed, col@, r));
    r
}

} // verus!

verus! {

fn check_kind<E: ExecutionContext>(env: &E, s: &String, guild_id: u64, kind: &InnerColumnTypeStringKind, col: &String) -> (r: Result<(), SettingsError>)
    ensures
        kind_checked(*kind, guild_id, s@, col@, r),
{
    match kind {
        InnerColumnTypeStringKind::TemplateRef => template_check(env.template_exists(guild_id, s.as_str()), col),
        InnerColumnTypeStringKind::Role => match parse_role_id(s.as_str()) {
            Some(_) => Ok(()),
            None => check_err(col, "snowflake_parse", String::from_str("Valid role id"), String::from_str("not a role id")),
        },
        InnerColumnTypeStringKind::User => match parse_user_id(s.as_str()) {
            Some(_) => Ok(()),
            None => check_err(col, "snowflake_parse", String::from_str("Valid user id"), String::from_str("not a user id")),
        },
        InnerColumnTypeStringKind::Channel { allowed_channel_types, needed_bot_permissions } => check_channel_text(
            env,
            s,
            guild_id,
            allowed_channel_types,
            *needed_bot_permissions,
            col,
        ),
        _ => Ok(()),
    }
}

/// What `accepted_range` says of a lower bound.
fn above(min: usize) -> (r: String)
    ensures
        r@ == seq!['>'] + int_text(min as int),
{
    let mut s = String::from_str(">");
    let t = int_to_text(min as i128);
    s.append(t.as_str());
    proof {
        reveal_strlit(">");
    }
    s
}

/// The allowed values, each after a space.
pub open spec fn allowed_items(vals: Seq<String>) -> Seq<char>
    decreases vals.len(),
{
    if vals.len() == 0 {
        Seq::empty()
    } else {
        allowed_items(vals.drop_last()) + seq![' '] + vals.last()@
    }
}

/// What `accepted_range` says of an allowed-values check.
pub open spec fn allowed_range(vals: Seq<String>) -> Seq<char> {
    "one of:"@ + allowed_items(vals)
}

fn allowed_text(allowed: &Vec<String>) -> (r: String)
    ensures
        r@ == allowed_range(allowed@),
{
    let mut t = String::from_str("one of:");
    assert(allowed@.subrange(0, 0) =~= Seq::<String>::empty());
    let mut i: usize = 0;
    while i < allowed.len()
        invariant
            i <= allowed.len(),
            t@ == "one of:"@ + allowed_items(allowed@.subrange(0, i as int)),
        decreases allowed.len() - i,
    {
        let ghost before = t@;
        t.append(" ");
        t.append(allowed[i].as_str());
        proof {
            reveal_strlit(" ");
            assert(allowed@.subrange(0, i + 1).drop_last() =~= allowed@.subrange(0, i as int));
            assert(allowed@.subrange(0, i + 1).last() == allowed@[i as int]);
            assert(t@ =~= "one of:"@ + allowed_items(allowed@.subrange(0, i + 1)));
        }
        i = i + 1;
    }
    assert(allowed@.subrange(0, allowed@.len() as int) =~= allowed@);
    t
}

fn check_string<E: ExecutionContext>(
    env: &E,
    s: &String,
    guild_id: u64,
    min_length: Option<usize>,
    max_length: Option<usize>,
    allowed_values: &Vec<String>,
    kind: &InnerColumnTypeStringKind,
    col: &String,
) -> (r: Result<(), SettingsError>)
    ensures
        string_checked(s@, min_length, max_length, allowed_values@, *kind, guild_id, col@, r),
{
    let len = s.as_str().len();
    if let Some(m) = min_length {
        if len < m {
            return check_err(col, "minlength", above(m), String::from_str("text shorter than the minimum"));
        }
    }
    if let Some(m) = max_length {
        if len > m {
            return check_err(col, "maxlength", below(m), String::from_str("text longer than the maximum"));
        }
    }
    if allowed_values.len() > 0 {
        let mut found = false;
        let mut i: usize = 0;
        while i < allowed_values.len()
            invariant
                i <= allowed_values.len(),
                found ==> exists|j: int| 0 <= j < allowed_values@.len() && (#[trigger] allowed_values@[j])@ == s@,
                !found ==> forall|j: int| 0 <= j < i ==> (#[trigger] allowed_values@[j])@ != s@,
            decreases allowed_values.len() - i,
        {
            if allowed_values[i] == *s {
                found = true;
            }
            i = i + 1;
        }
        if !found {
            return check_err(col, "allowed_values", allowed_text(allowed_values), String::from_str("value not allowed"));
        }
    }
    check_kind(env, s, guild_id, kind, col)
}

fn check_scalar<E: ExecutionContext>(env: &E, v: &Value, guild_id: u64, inner: &InnerColumnType, col: &String, nullable: bool) -> (r: Result<(), SettingsError>)
    ensures
        scalar_checked(*v, *inner, guild_id, col@, nullable, r),
{
    if let Value::Null = v {
        if nullable {
            return Ok(());
        } else {
            return Err(SettingsError::SchemaNullValueValidationError { column: col.clone() });
        }
    }
    if matches!(v, Value::List(_)) && !matches!(inner, InnerColumnType::Json { .. }) {
        return type_err(col, "Scalar", String::from_str("Array"));
    }
    match inner {
        InnerColumnType::String { min_length, max_length, allowed_values, kind } => match v {
            Value::String(s) => check_string(env, s, guild_id, *min_length, *max_length, allowed_values, kind, col),
            _ => type_err(col, "String", v.kind()),
        },
        _ => Ok(()),
    }
}

fn check_value<E: ExecutionContext>(env: &E, v: &Value, guild_id: u64, ct: &ColumnType, col: &String, nullable: bool) -> (r: Result<(), SettingsError>)
    ensures
        value_checked(*v, *ct, guild_id, col@, nullable, r),
{
    match ct {
        ColumnType::Scalar { inner } => check_scalar(env, v, guild_id, inner, col, nullable),
        ColumnType::Array { inner } => match v {
            Value::Null => {
                if nullable {
                    Ok(())
                } else {
                    Err(SettingsError::SchemaNullValueValidationError { column: col.clone() })
                }
            },
            Value::List(l) => {
                let mut i: usize = 0;
                while i < l.len()
                    invariant
                        i <= l.len(),
                        *v == Value::List(*l),
                        *ct == (ColumnType::Array { inner: *inner }),
                        forall|j: int| 0 <= j < i ==> scalar_checked(#[trigger] l@[j], *inner, guild_id, element_column(col@, j), nullable, done()),
                    decreases l.len() - i,
                {
                    let name = element_name(col, i);
                    let res = check_scalar(env, &l[i], guild_id, inner, &name, nullable);
                    if res.is_err() {
                        assert(scalar_checked(l@[i as int], *inner, guild_id, element_column(col@, i as int), nullable, res));
                        assert(list_checked(l@, *inner, guild_id, col@, nullable, res));
                        return res;
                    }
                    i = i + 1;
                }
                Ok(())
            },
            _ => type_err(col, "Array", v.kind()),
        },
    }
}

/// The validate pass: `v` itself when it passes every check of the column
/// (including the null check), or the first error.
pub fn validate_value<E: ExecutionContext>(env: &E, v: Value, guild_id: u64, ct: &ColumnType, col: &String, nullable: bool) -> (r: Result<Value, SettingsError>)
    ensures
        r is Ok ==> r == Ok::<Value, SettingsError>(v),
        value_checked(
            v,
            *ct,
            guild_id,
            col@,
            nullable,
            match r {
                Ok(_) => done(),
                Err(e) => Err(e),
            },
        ),
{
    match check_value(env, &v, guild_id, ct, col, nullable) {
        Ok(()) => Ok(v),
        Err(e) => Err(e),
    }
}

} // verus!
