//! The four operations on a setting: each runs the parse and validate
//! passes over the columns and hands the result to the setting's hook.
use crate::context::{ExecutionContext, HookContext, SettingHooks};
use crate::error::SettingsError;
use crate::parse::{parse_value, parsed};
use crate::schema::{Column, OperationType, Setting};
use crate::state::{state_get, state_insert, state_map, state_swap_remove, State};
use crate::validate::{done, validate_value, value_checked};
use crate::value::Value;
use vstd::prelude::*;

verus! {

/// The value that a state gives for a key: what it holds, or null.
pub open spec fn input_value(m: Map<Seq<char>, Value>, k: Seq<char>) -> Value {
    if m.contains_key(k) { m[k] } else { Value::Null }
}

/// `w` is what the parse and validate passes may make of `v` in column `c`.
pub open spec fn column_accepts(c: Column, guild: u64, v: Value, w: Value) -> bool {
    parsed(v, c.column_type, c.id@, Ok(w)) && value_checked(w, c.column_type, guild, c.id@, c.nullable, done())
}

/// `e` is an error that the parse or the validate pass may give for `v` in
/// column `c`.
pub open spec fn column_refuses(c: Column, guild: u64, v: Value, e: SettingsError) -> bool {
    parsed(v, c.column_type, c.id@, Err(e)) || exists|w: Value|
        parsed(v, c.column_type, c.id@, Ok(w)) && value_checked(w, c.column_type, guild, c.id@, c.nullable, Err(e))
}

/// `out` is the state that a create or an update hands to its hook, made
/// from the caller's fields `m`: every column that `op` does not ignore holds
/// its parsed and validated value, every column that `op` ignores is gone,
/// and every other key is kept as it was.
pub open spec fn prepared(s: Setting, op: OperationType, guild: u64, m: Map<Seq<char>, Value>, out: Map<Seq<char>, Value>) -> bool {
    &&& forall|j: int| 0 <= j < s.columns@.len() && !(#[trigger] s.columns@[j]).is_ignored_for(op) ==> out.contains_key(s.columns@[j].id@)
        && column_accepts(s.columns@[j], guild, input_value(m, s.columns@[j].id@), out[s.columns@[j].id@])
    &&& forall|j: int| 0 <= j < s.columns@.len() && (#[trigger] s.columns@[j]).is_ignored_for(op) ==> !out.contains_key(s.columns@[j].id@)
    &&& forall|k: Seq<char>| !s.is_column_id(k) ==> (out.contains_key(k) == m.contains_key(k) && (m.contains_key(k) ==> out[k] == m[k]))
}

/// `e` is the error of a create or an update on the caller's fields `m`:
/// the parse or the validate pass refuses column `j`, the first column that
/// `op` does not ignore and that is refused; every such column before it is
/// accepted.
pub open spec fn fields_refused(s: Setting, op: OperationType, guild: u64, m: Map<Seq<char>, Value>, e: SettingsError) -> bool {
    exists|j: int|
        0 <= j < s.columns@.len() && !(#[trigger] s.columns@[j]).is_ignored_for(op) && column_refuses(
            s.columns@[j],
            guild,
            input_value(m, s.columns@[j].id@),
            e,
        ) && forall|i: int|
            0 <= i < j && !(#[trigger] s.columns@[i]).is_ignored_for(op) ==> exists|w: Value|
                column_accepts(s.columns@[i], guild, input_value(m, s.columns@[i].id@), w)
}

/// A choice of columns, by what an operation does with them.
pub enum Selection {
    /// The columns that the operation does not ignore.
    Kept(OperationType),
    /// The columns that the operation ignores.
    Ignored(OperationType),
    /// Every column.
    All,
    /// The columns that a view does not show: the secret ones and those
    /// that it ignores.
    Hidden,
}

impl Selection {
    /// Whether this selection chooses `c`.
    pub fn chooses(&self, c: &Column) -> (r: bool)
        ensures
            r == selects(*self, *c),
    {
        match self {
            Selection::Kept(op) => !c.ignored(*op),
            Selection::Ignored(op) => c.ignored(*op),
            Selection::All => true,
            Selection::Hidden => c.secret || c.ignored(OperationType::View),
        }
    }
}

pub open spec fn selects(sel: Selection, c: Column) -> bool {
    match sel {
        Selection::Kept(op) => !c.is_ignored_for(op),
        Selection::Ignored(op) => c.is_ignored_for(op),
        Selection::All => true,
        Selection::Hidden => c.secret || c.is_ignored_for(OperationType::View),
    }
}

/// Whether one of the first `n` columns that `sel` chooses has id `k`.
pub open spec fn among(cols: Seq<Column>, n: int, sel: Selection, k: Seq<char>) -> bool {
    exists|j: int| 0 <= j < n && (#[trigger] cols[j]).id@ == k && selects(sel, cols[j])
}

/// Every column that `op` does not ignore, among the first `n`, holds what
/// the parse and validate passes made of its input in `m`.
pub open spec fn columns_accepted(cols: Seq<Column>, n: int, op: OperationType, guild: u64, m: Map<Seq<char>, Value>, out: Map<Seq<char>, Value>) -> bool {
    forall|j: int| 0 <= j < n && !(#[trigger] cols[j]).is_ignored_for(op) ==> out.contains_key(cols[j].id@)
        && column_accepts(cols[j], guild, input_value(m, cols[j].id@), out[cols[j].id@])
}

/// The ids of the first `n` columns that `sel` chooses.
pub open spec fn id_set(cols: Seq<Column>, n: int, sel: Selection) -> Set<Seq<char>> {
    Set::new(|k: Seq<char>| among(cols, n, sel, k))
}

/// `out` agrees with `m` on every key but the ids of `id_set(cols, n, sel)`.
pub open spec fn agrees_off(m: Map<Seq<char>, Value>, out: Map<Seq<char>, Value>, cols: Seq<Column>, n: int, sel: Selection) -> bool {
    out.remove_keys(id_set(cols, n, sel)) == m.remove_keys(id_set(cols, n, sel))
}

proof fn lemma_id_set_step(cols: Seq<Column>, i: int, sel: Selection)
    requires
        0 <= i < cols.len(),
    ensures
        id_set(cols, i + 1, sel) == (if selects(sel, cols[i]) {
            id_set(cols, i, sel).insert(cols[i].id@)
        } else {
            id_set(cols, i, sel)
        }),
{
    let next = if selects(sel, cols[i]) { id_set(cols, i, sel).insert(cols[i].id@) } else { id_set(cols, i, sel) };
    assert forall|k: Seq<char>| id_set(cols, i + 1, sel).contains(k) <==> next.contains(k) by {
        if among(cols, i + 1, sel, k) {
            let j = choose|j: int| 0 <= j < i + 1 && (#[trigger] cols[j]).id@ == k && selects(sel, cols[j]);
            if j < i {
                assert(among(cols, i, sel, k));
            }
        }
        if among(cols, i, sel, k) || (k == cols[i].id@ && selects(sel, cols[i])) {
            lemma_among_grows(cols, i, sel, k);
        }
    }
    assert(id_set(cols, i + 1, sel) =~= next);
}

proof fn lemma_among_grows(cols: Seq<Column>, i: int, sel: Selection, k: Seq<char>)
    requires
        0 <= i < cols.len(),
        among(cols, i, sel, k) || (cols[i].id@ == k && selects(sel, cols[i])),
    ensures
        among(cols, i + 1, sel, k),
{
    if among(cols, i, sel, k) {
        let j = choose|j: int| 0 <= j < i && (#[trigger] cols[j]).id@ == k && selects(sel, cols[j]);
        assert(0 <= j < i + 1 && cols[j].id@ == k);
    } else {
        assert(0 <= i < i + 1 && cols[i].id@ == k);
    }
}

/// The parse and validate passes over every column that `op` does not
/// ignore, in order; each result replaces the column's input in the state.
fn parse_columns<E: ExecutionContext>(env: &E, setting: &Setting, op: OperationType, guild_id: u64, fields: State) -> (r: Result<State, SettingsError>)
    requires
        setting.wf(),
    ensures
        r matches Ok(out) ==> columns_accepted(setting.columns@, setting.columns@.len() as int, op, guild_id, state_map(fields), state_map(out))
            && agrees_off(state_map(fields), state_map(out), setting.columns@, setting.columns@.len() as int, Selection::Kept(op)),
        r matches Err(e) ==> fields_refused(*setting, op, guild_id, state_map(fields), e),
{
    let ghost m0 = state_map(fields);
    let cols = &setting.columns;
    let n = cols.len();
    let mut state = fields;
    let mut i: usize = 0;
    while i < n
        invariant
            setting.wf(),
            cols == &setting.columns,
            n == cols@.len(),
            i <= n,
            m0 == state_map(fields),
            columns_accepted(cols@, i as int, op, guild_id, m0, state_map(state)),
            agrees_off(m0, state_map(state), cols@, i as int, Selection::Kept(op)),
        decreases n - i,
    {
        proof {
            assert forall|i2: int| 0 <= i2 < i && !(#[trigger] cols@[i2]).is_ignored_for(op) implies exists|w: Value|
                column_accepts(cols@[i2], guild_id, input_value(m0, cols@[i2].id@), w) by {
                assert(column_accepts(cols@[i2], guild_id, input_value(m0, cols@[i2].id@), state_map(state)[cols@[i2].id@]));
            }
        }
        let column = &cols[i];
        let ghost before = state_map(state);
        assert(cols@[i as int] == *column);
        if !column.ignored(op) {
            let val = match state_swap_remove(&mut state, &column.id) {
                Some(v) => v,
                None => Value::Null,
            };
            proof {
                let t = id_set(cols@, i as int, Selection::Kept(op));
                if among(cols@, i as int, Selection::Kept(op), column.id@) {
                    let j = choose|j: int| 0 <= j < i && (#[trigger] cols@[j]).id@ == column.id@ && selects(Selection::Kept(op), cols@[j]);
                    assert(cols@[j].id@ != cols@[i as int].id@);
                }
                assert(!t.contains(column.id@));
                assert(before.remove_keys(t).contains_key(column.id@) == before.contains_key(column.id@));
                assert(m0.remove_keys(t).contains_key(column.id@) == m0.contains_key(column.id@));
                assert(before.contains_key(column.id@) ==> before.remove_keys(t)[column.id@] == before[column.id@]);
                assert(m0.contains_key(column.id@) ==> m0.remove_keys(t)[column.id@] == m0[column.id@]);
                assert(val == input_value(m0, column.id@));
            }
            let parsed_value = match parse_value(env, val, &column.column_type, &column.id) {
                Ok(p) => p,
                Err(e) => {
                    assert(column_refuses(*column, guild_id, input_value(m0, column.id@), e));
                    return Err(e);
                },
            };
            let value = match validate_value(env, parsed_value, guild_id, &column.column_type, &column.id, column.nullable) {
                Ok(w) => w,
                Err(e) => {
                    assert(column_refuses(*column, guild_id, input_value(m0, column.id@), e));
                    return Err(e);
                },
            };
            state_insert(&mut state, column.id.clone(), value);
            proof {
                lemma_id_set_step(cols@, i as int, Selection::Kept(op));
                let t = id_set(cols@, i + 1, Selection::Kept(op));
                assert(t.contains(column.id@));
                assert(state_map(state).remove_keys(t) =~= before.remove_keys(t));
                assert(before.remove_keys(t) =~= before.remove_keys(id_set(cols@, i as int, Selection::Kept(op))).remove(column.id@));
                assert(m0.remove_keys(t) =~= m0.remove_keys(id_set(cols@, i as int, Selection::Kept(op))).remove(column.id@));
                assert forall|j: int| 0 <= j < i + 1 && !(#[trigger] cols@[j]).is_ignored_for(op) implies state_map(state).contains_key(cols@[j].id@)
                    && column_accepts(cols@[j], guild_id, input_value(m0, cols@[j].id@), state_map(state)[cols@[j].id@]) by {
                    if j < i {
                        assert(cols@[j].id@ != cols@[i as int].id@);
                    }
                }
            }
        } else {
            proof {
                lemma_id_set_step(cols@, i as int, Selection::Kept(op));
            }
        }
        i = i + 1;
    }
    Ok(state)
}

/// Whether a view can make something of the record `m`.
pub open spec fn viewable(s: Setting, m: Map<Seq<char>, Value>) -> bool {
    exists|out: Map<Seq<char>, Value>| viewed(s, m, out)
}

/// `e` is the error of re-parsing the record `m`: that of column `j`, the
/// first, in order, that the parse pass refuses; every column before it
/// parses.
pub open spec fn record_refused(s: Setting, m: Map<Seq<char>, Value>, e: SettingsError) -> bool {
    exists|j: int|
        0 <= j < s.columns@.len() && parsed(
            input_value(m, (#[trigger] s.columns@[j]).id@),
            s.columns@[j].column_type,
            s.columns@[j].id@,
            Err(e),
        ) && forall|i: int|
            0 <= i < j ==> exists|w: Value| parsed(input_value(m, (#[trigger] s.columns@[i]).id@), s.columns@[i].column_type, s.columns@[i].id@, Ok(w))
}

/// Every one of the first `n` columns holds what the parse pass made of its
/// input in `m`.
pub open spec fn columns_parsed(cols: Seq<Column>, n: int, m: Map<Seq<char>, Value>, out: Map<Seq<char>, Value>) -> bool {
    forall|j: int| 0 <= j < n ==> out.contains_key((#[trigger] cols[j]).id@)
        && parsed(input_value(m, cols[j].id@), cols[j].column_type, cols[j].id@, Ok(out[cols[j].id@]))
}

/// The parse pass over every column, in order; each result replaces the
/// column's input in the state.
fn reparse_columns<E: ExecutionContext>(env: &E, setting: &Setting, fields: State) -> (r: Result<State, SettingsError>)
    requires
        setting.wf(),
    ensures
        r matches Ok(out) ==> columns_parsed(setting.columns@, setting.columns@.len() as int, state_map(fields), state_map(out))
            && agrees_off(state_map(fields), state_map(out), setting.columns@, setting.columns@.len() as int, Selection::All),
        r matches Err(e) ==> record_refused(*setting, state_map(fields), e),
{
    let ghost m0 = state_map(fields);
    let cols = &setting.columns;
    let n = cols.len();
    let mut state = fields;
    let mut i: usize = 0;
    while i < n
        invariant
            setting.wf(),
            cols == &setting.columns,
            n == cols@.len(),
            i <= n,
            m0 == state_map(fields),
            columns_parsed(cols@, i as int, m0, state_map(state)),
            agrees_off(m0, state_map(state), cols@, i as int, Selection::All),
        decreases n - i,
    {
        proof {
            assert forall|i2: int| 0 <= i2 < i implies exists|w: Value|
                parsed(input_value(m0, (#[trigger] cols@[i2]).id@), cols@[i2].column_type, cols@[i2].id@, Ok(w)) by {
                assert(parsed(input_value(m0, cols@[i2].id@), cols@[i2].column_type, cols@[i2].id@, Ok(state_map(state)[cols@[i2].id@])));
            }
        }
        let column = &cols[i];
        let ghost before = state_map(state);
        assert(cols@[i as int] == *column);
        {
            let val = match state_swap_remove(&mut state, &column.id) {
                Some(v) => v,
                None => Value::Null,
            };
            proof {
                let t = id_set(cols@, i as int, Selection::All);
                if among(cols@, i as int, Selection::All, column.id@) {
                    let j = choose|j: int| 0 <= j < i && (#[trigger] cols@[j]).id@ == column.id@ && selects(Selection::All, cols@[j]);
                    assert(cols@[j].id@ != cols@[i as int].id@);
                }
                assert(!t.contains(column.id@));
                assert(before.remove_keys(t).contains_key(column.id@) == before.contains_key(column.id@));
                assert(m0.remove_keys(t).contains_key(column.id@) == m0.contains_key(column.id@));
                assert(before.contains_key(column.id@) ==> before.remove_keys(t)[column.id@] == before[column.id@]);
                assert(m0.contains_key(column.id@) ==> m0.remove_keys(t)[column.id@] == m0[column.id@]);
                assert(val == input_value(m0, column.id@));
            }
            let value = match parse_value(env, val, &column.column_type, &column.id) {
                Ok(p) => p,
                Err(e) => {
                    assert(parsed(input_value(m0, cols@[i as int].id@), cols@[i as int].column_type, cols@[i as int].id@, Err(e)));
                    return Err(e);
                },
            };
            state_insert(&mut state, column.id.clone(), value);
            proof {
                lemma_id_set_step(cols@, i as int, Selection::All);
                let t = id_set(cols@, i + 1, Selection::All);
                assert(t.contains(column.id@));
                assert(state_map(state).remove_keys(t) =~= before.remove_keys(t));
                assert(before.remove_keys(t) =~= before.remove_keys(id_set(cols@, i as int, Selection::All)).remove(column.id@));
                assert(m0.remove_keys(t) =~= m0.remove_keys(id_set(cols@, i as int, Selection::All)).remove(column.id@));
                assert forall|j: int| 0 <= j < i + 1 implies state_map(state).contains_key((#[trigger] cols@[j]).id@)
                    && parsed(input_value(m0, cols@[j].id@), cols@[j].column_type, cols@[j].id@, Ok(state_map(state)[cols@[j].id@])) by {
                    if j < i {
                        assert(cols@[j].id@ != cols@[i as int].id@);
                    }
                }
            }
        }
        i = i + 1;
    }
    Ok(state)
}

/// The null check: every column that `op` does not ignore is in the state,
/// and is not null unless the column is nullable.
fn null_check(setting: &Setting, op: OperationType, state: &State) -> (r: Result<(), SettingsError>)
    ensures
        r is Ok <==> forall|j: int| 0 <= j < setting.columns@.len() && !(#[trigger] setting.columns@[j]).is_ignored_for(op)
            ==> state_map(*state).contains_key(setting.columns@[j].id@)
            && (state_map(*state)[setting.columns@[j].id@] is Null ==> setting.columns@[j].nullable),
{
    let cols = &setting.columns;
    let mut i: usize = 0;
    while i < cols.len()
        invariant
            cols == &setting.columns,
            i <= cols@.len(),
            forall|j: int| 0 <= j < i && !(#[trigger] cols@[j]).is_ignored_for(op) ==> state_map(*state).contains_key(cols@[j].id@)
                && (state_map(*state)[cols@[j].id@] is Null ==> cols@[j].nullable),
        decreases cols@.len() - i,
    {
        let column = &cols[i];
        assert(cols@[i as int] == *column);
        if !column.ignored(op) {
            match state_get(state, &column.id) {
                None => {
                    let src = if matches!(op, OperationType::Update) {
                        String::from_str("settings_update [ext_checks]")
                    } else {
                        String::from_str("settings_create [ext_checks]")
                    };
                    return Err(SettingsError::Generic {
                        message: String::from_str("column missing from the state just after it was parsed"),
                        src,
                        typ: String::from_str("internal"),
                    });
                },
                Some(v) => {
                    if !column.nullable && matches!(v, Value::Null) {
                        return Err(SettingsError::MissingOrInvalidField {
                            field: column.id.clone(),
                            src: String::from_str("settings_create [null check]"),
                        });
                    }
                },
            }
        }
        i = i + 1;
    }
    Ok(())
}

/// Removes from the state every column that `sel` chooses.
fn drop_columns(setting: &Setting, sel: Selection, state: &mut State)
    ensures
        forall|j: int| 0 <= j < setting.columns@.len() && selects(sel, #[trigger] setting.columns@[j])
            ==> !state_map(*final(state)).contains_key(setting.columns@[j].id@),
        agrees_off(state_map(*old(state)), state_map(*final(state)), setting.columns@, setting.columns@.len() as int, sel),
{
    let ghost m0 = state_map(*state);
    let cols = &setting.columns;
    let mut i: usize = 0;
    while i < cols.len()
        invariant
            cols == &setting.columns,
            i <= cols@.len(),
            m0 == state_map(*old(state)),
            forall|j: int| 0 <= j < i && selects(sel, #[trigger] cols@[j]) ==> !state_map(*state).contains_key(cols@[j].id@),
            agrees_off(m0, state_map(*state), cols@, i as int, sel),
        decreases cols@.len() - i,
    {
        let column = &cols[i];
        assert(cols@[i as int] == *column);
        let ghost before = state_map(*state);
        if sel.chooses(column) {
            state_swap_remove(state, &column.id);
        }
        proof {
            lemma_id_set_step(cols@, i as int, sel);
            let t = id_set(cols@, i + 1, sel);
            if selects(sel, *column) {
                assert(t.contains(column.id@));
                assert(state_map(*state).remove_keys(t) =~= before.remove_keys(t));
                assert(before.remove_keys(t) =~= before.remove_keys(id_set(cols@, i as int, sel)).remove(column.id@));
                assert(m0.remove_keys(t) =~= m0.remove_keys(id_set(cols@, i as int, sel)).remove(column.id@));
            }
        }
        i = i + 1;
    }
}

/// Runs the parse and validate passes of a create or an update over every
/// column that `op` does not ignore, then the null check, and drops the
/// columns that `op` ignores.
pub fn prepare_state<E: ExecutionContext>(env: &E, setting: &Setting, op: OperationType, guild_id: u64, fields: State) -> (r: Result<State, SettingsError>)
    requires
        setting.wf(),
    ensures
        r matches Ok(out) ==> prepared(*setting, op, guild_id, state_map(fields), state_map(out)),
        r matches Err(e) ==> fields_refused(*setting, op, guild_id, state_map(fields), e),
{
    let ghost m0 = state_map(fields);
    let ghost cols = setting.columns@;
    let mut state = match parse_columns(env, setting, op, guild_id, fields) {
        Ok(s) => s,
        Err(e) => {
            return Err(e);
        },
    };
    let ghost mid = state_map(state);
    match null_check(setting, op, &state) {
        Ok(()) => {},
        Err(e) => {
            proof {
                let j = choose|j: int| !(0 <= j < cols.len() && !(#[trigger] cols[j]).is_ignored_for(op)
                    ==> mid.contains_key(cols[j].id@) && (mid[cols[j].id@] is Null ==> cols[j].nullable));
                assert(column_accepts(cols[j], guild_id, input_value(m0, cols[j].id@), mid[cols[j].id@]));
            }
            return Err(e);
        },
    }
    drop_columns(setting, Selection::Ignored(op), &mut state);
    proof {
        let n = cols.len() as int;
        let t1 = id_set(cols, n, Selection::Kept(op));
        let t2 = id_set(cols, n, Selection::Ignored(op));
        let out = state_map(state);
        assert forall|j: int| 0 <= j < n && !(#[trigger] cols[j]).is_ignored_for(op) implies out.contains_key(cols[j].id@)
            && column_accepts(cols[j], guild_id, input_value(m0, cols[j].id@), out[cols[j].id@]) by {
            if among(cols, n, Selection::Ignored(op), cols[j].id@) {
                let j2 = choose|j2: int| 0 <= j2 < n && (#[trigger] cols[j2]).id@ == cols[j].id@ && selects(Selection::Ignored(op), cols[j2]);
                if j2 < j {
                    assert(cols[j2].id@ != cols[j].id@);
                } else if j < j2 {
                    assert(cols[j].id@ != cols[j2].id@);
                }
            }
            assert(!t2.contains(cols[j].id@));
            assert(out.remove_keys(t2).contains_key(cols[j].id@) == out.contains_key(cols[j].id@));
            assert(mid.remove_keys(t2).contains_key(cols[j].id@) == mid.contains_key(cols[j].id@));
            assert(out.remove_keys(t2)[cols[j].id@] == out[cols[j].id@]);
            assert(mid.remove_keys(t2)[cols[j].id@] == mid[cols[j].id@]);
        }
        assert forall|j: int| 0 <= j < n && (#[trigger] cols[j]).is_ignored_for(op) implies !out.contains_key(cols[j].id@) by {}
        assert forall|k: Seq<char>| !setting.is_column_id(k) implies (out.contains_key(k) == m0.contains_key(k) && (m0.contains_key(k) ==> out[k] == m0[k])) by {
            if among(cols, n, Selection::Kept(op), k) {
                let j = choose|j: int| 0 <= j < n && (#[trigger] cols[j]).id@ == k && selects(Selection::Kept(op), cols[j]);
                assert(setting.is_column_id(k));
            }
            if among(cols, n, Selection::Ignored(op), k) {
                let j = choose|j: int| 0 <= j < n && (#[trigger] cols[j]).id@ == k && selects(Selection::Ignored(op), cols[j]);
                assert(setting.is_column_id(k));
            }
            assert(!t1.contains(k) && !t2.contains(k));
            assert(out.remove_keys(t2).contains_key(k) == out.contains_key(k));
            assert(mid.remove_keys(t2).contains_key(k) == mid.contains_key(k));
            assert(mid.remove_keys(t1).contains_key(k) == mid.contains_key(k));
            assert(m0.remove_keys(t1).contains_key(k) == m0.contains_key(k));
            if m0.contains_key(k) {
                assert(out.remove_keys(t2)[k] == out[k]);
                assert(mid.remove_keys(t2)[k] == mid[k]);
                assert(mid.remove_keys(t1)[k] == mid[k]);
                assert(m0.remove_keys(t1)[k] == m0[k]);
            }
        }
    }
    Ok(state)
}

} // verus!

verus! {

/// `out` is what a view returns for the record `m` that its hook gave: every
/// shown column holds what the parse pass made of its value, every hidden
/// column (secret, or ignored by views) is gone, and every other key is kept
/// as it was.
pub open spec fn viewed(s: Setting, m: Map<Seq<char>, Value>, out: Map<Seq<char>, Value>) -> bool {
    &&& forall|j: int| 0 <= j < s.columns@.len() && !selects(Selection::Hidden, #[trigger] s.columns@[j]) ==> out.contains_key(s.columns@[j].id@)
        && parsed(input_value(m, s.columns@[j].id@), s.columns@[j].column_type, s.columns@[j].id@, Ok(out[s.columns@[j].id@]))
    &&& forall|j: int| 0 <= j < s.columns@.len() && selects(Selection::Hidden, #[trigger] s.columns@[j]) ==> !out.contains_key(s.columns@[j].id@)
    &&& forall|k: Seq<char>| !s.is_column_id(k) ==> (out.contains_key(k) == m.contains_key(k) && (m.contains_key(k) ==> out[k] == m[k]))
}

/// Re-parses one record that a view hook returned, then drops its hidden
/// columns.
pub fn view_state<E: ExecutionContext>(env: &E, setting: &Setting, state: State) -> (r: Result<State, SettingsError>)
    requires
        setting.wf(),
    ensures
        r matches Ok(out) ==> viewed(*setting, state_map(state), state_map(out)),
        r matches Err(e) ==> record_refused(*setting, state_map(state), e),
{
    let ghost m0 = state_map(state);
    let ghost cols = setting.columns@;
    let mut out = match reparse_columns(env, setting, state) {
        Ok(s) => s,
        Err(e) => {
            return Err(e);
        },
    };
    let ghost mid = state_map(out);
    drop_columns(setting, Selection::Hidden, &mut out);
    proof {
        let n = cols.len() as int;
        let t1 = id_set(cols, n, Selection::All);
        let t2 = id_set(cols, n, Selection::Hidden);
        let fin = state_map(out);
        assert forall|j: int| 0 <= j < n && !selects(Selection::Hidden, #[trigger] cols[j]) implies fin.contains_key(cols[j].id@)
            && parsed(input_value(m0, cols[j].id@), cols[j].column_type, cols[j].id@, Ok(fin[cols[j].id@])) by {
            if among(cols, n, Selection::Hidden, cols[j].id@) {
                let j2 = choose|j2: int| 0 <= j2 < n && (#[trigger] cols[j2]).id@ == cols[j].id@ && selects(Selection::Hidden, cols[j2]);
                if j2 < j {
                    assert(cols[j2].id@ != cols[j].id@);
                } else if j < j2 {
                    assert(cols[j].id@ != cols[j2].id@);
                }
            }
            assert(!t2.contains(cols[j].id@));
            assert(fin.remove_keys(t2).contains_key(cols[j].id@) == fin.contains_key(cols[j].id@));
            assert(mid.remove_keys(t2).contains_key(cols[j].id@) == mid.contains_key(cols[j].id@));
            assert(fin.remove_keys(t2)[cols[j].id@] == fin[cols[j].id@]);
            assert(mid.remove_keys(t2)[cols[j].id@] == mid[cols[j].id@]);
        }
        assert forall|k: Seq<char>| !setting.is_column_id(k) implies (fin.contains_key(k) == m0.contains_key(k) && (m0.contains_key(k) ==> fin[k] == m0[k])) by {
            if among(cols, n, Selection::All, k) {
                let j = choose|j: int| 0 <= j < n && (#[trigger] cols[j]).id@ == k && selects(Selection::All, cols[j]);
                assert(setting.is_column_id(k));
            }
            if among(cols, n, Selection::Hidden, k) {
                let j = choose|j: int| 0 <= j < n && (#[trigger] cols[j]).id@ == k && selects(Selection::Hidden, cols[j]);
                assert(setting.is_column_id(k));
            }
            assert(!t1.contains(k) && !t2.contains(k));
            assert(fin.remove_keys(t2).contains_key(k) == fin.contains_key(k));
            assert(mid.remove_keys(t2).contains_key(k) == mid.contains_key(k));
            assert(mid.remove_keys(t1).contains_key(k) == mid.contains_key(k));
            assert(m0.remove_keys(t1).contains_key(k) == m0.contains_key(k));
            if m0.contains_key(k) {
                assert(fin.remove_keys(t2)[k] == fin[k]);
                assert(mid.remove_keys(t2)[k] == mid[k]);
                assert(mid.remove_keys(t1)[k] == mid[k]);
                assert(m0.remove_keys(t1)[k] == m0[k]);
            }
        }
    }
    Ok(out)
}

/// Re-parses every record that a view hook returned, in order, and drops
/// their hidden columns.
pub fn view_states<E: ExecutionContext>(env: &E, setting: &Setting, states: Vec<State>) -> (r: Result<Vec<State>, SettingsError>)
    requires
        setting.wf(),
    ensures
        r matches Ok(out) ==> out@.len() == states@.len() && forall|i: int|
            0 <= i < states@.len() ==> viewed(*setting, state_map(#[trigger] states@[i]), state_map(out@[i])),
        r matches Err(e) ==> exists|i: int|
            0 <= i < states@.len() && record_refused(*setting, state_map(#[trigger] states@[i]), e) && forall|k: int|
                0 <= k < i ==> viewable(*setting, state_map(#[trigger] states@[k])),
{
    let ghost s0 = states@;
    let n = states.len();
    let mut rest = states;
    let mut out: Vec<State> = Vec::new();
    let mut i: usize = 0;
    while i < n
        invariant
            setting.wf(),
            s0 == states@,
            n == s0.len(),
            i <= n,
            rest@ == s0.subrange(i as int, n as int),
            out@.len() == i,
            forall|k: int| 0 <= k < i ==> viewed(*setting, state_map(#[trigger] s0[k]), state_map(out@[k])),
        decreases n - i,
    {
        let st = rest.remove(0);
        assert(st == s0[i as int]);
        match view_state(env, setting, st) {
            Ok(v) => {
                out.push(v);
            },
            Err(e) => {
                proof {
                    let ii = i as int;
                    assert forall|k: int| 0 <= k < ii implies viewable(*setting, state_map(#[trigger] states@[k])) by {
                        assert(s0[k] == states@[k]);
                        assert(viewed(*setting, state_map(s0[k]), state_map(out@[k])));
                    }
                    assert(s0[ii] == states@[ii]);
                    assert(record_refused(*setting, state_map(states@[ii]), e));
                }
                return Err(e);
            },
        }
        i = i + 1;
    }
    Ok(out)
}

/// `out` is what a view makes of some records that its hook returned, one
/// for each.
pub open spec fn view_result(s: Setting, out: Seq<State>) -> bool {
    exists|states: Seq<State>|
        #![trigger states.len()]
        states.len() == out.len() && forall|i: int| 0 <= i < out.len() ==> viewed(s, state_map(#[trigger] states[i]), state_map(out[i]))
}

/// `r` is the error of an operation that the setting has no hook for.
pub open spec fn unsupported<T>(r: Result<T, SettingsError>, op: OperationType) -> bool {
    r matches Err(SettingsError::OperationNotSupported { operation }) && operation == op
}

/// View: asks the view hook for the records that match `filters`, then
/// re-parses each and drops its hidden columns.
pub fn settings_view<E: ExecutionContext, H: SettingHooks>(
    env: &E,
    hooks: &H,
    setting: &Setting,
    ctx: &HookContext,
    filters: State,
) -> (r: Result<Vec<State>, SettingsError>)
    requires
        setting.wf(),
    ensures
        !setting.operations.view ==> unsupported(r, OperationType::View),
        r matches Ok(out) ==> forall|i: int, j: int| 0 <= i < out@.len() && 0 <= j < setting.columns@.len() ==> (
            (selects(Selection::Hidden, #[trigger] setting.columns@[j]) ==> !state_map(#[trigger] out@[i]).contains_key(setting.columns@[j].id@))
            && (!selects(Selection::Hidden, setting.columns@[j]) ==> state_map(out@[i]).contains_key(setting.columns@[j].id@))),
        r matches Ok(out) ==> view_result(*setting, out@),
{
    if !setting.operations.has(OperationType::View) {
        return Err(SettingsError::OperationNotSupported { operation: OperationType::View });
    }
    let states = match hooks.view(ctx, filters) {
        Ok(s) => s,
        Err(e) => {
            return Err(e);
        },
    };
    let r = view_states(env, setting, states);
    proof {
        if r is Ok {
            let out = r->Ok_0;
            assert forall|i: int, j: int| 0 <= i < out@.len() && 0 <= j < setting.columns@.len() implies (
                (selects(Selection::Hidden, #[trigger] setting.columns@[j]) ==> !state_map(#[trigger] out@[i]).contains_key(setting.columns@[j].id@))
                && (!selects(Selection::Hidden, setting.columns@[j]) ==> state_map(out@[i]).contains_key(setting.columns@[j].id@))) by {
                assert(viewed(*setting, state_map(states@[i]), state_map(out@[i])));
            }
            assert(states@.len() == out@.len());
        }
    }
    r
}

/// Create: runs the parse and validate passes and the null check over the
/// caller's fields, then hands the state to the create hook.
pub fn settings_create<E: ExecutionContext, H: SettingHooks>(
    env: &E,
    hooks: &H,
    setting: &Setting,
    ctx: &HookContext,
    fields: State,
) -> (r: Result<State, SettingsError>)
    requires
        setting.wf(),
    ensures
        !setting.operations.create ==> unsupported(r, OperationType::Create),
        setting.operations.create && r is Ok ==> exists|out: Map<Seq<char>, Value>|
            prepared(*setting, OperationType::Create, ctx.guild_id, state_map(fields), out),
        setting.operations.create && !(exists|out: Map<Seq<char>, Value>| prepared(*setting, OperationType::Create, ctx.guild_id, state_map(fields), out))
            ==> (r matches Err(e) && fields_refused(*setting, OperationType::Create, ctx.guild_id, state_map(fields), e)),
{
    if !setting.operations.has(OperationType::Create) {
        return Err(SettingsError::OperationNotSupported { operation: OperationType::Create });
    }
    let ghost m = state_map(fields);
    match prepare_state(env, setting, OperationType::Create, ctx.guild_id, fields) {
        Ok(state) => {
            assert(prepared(*setting, OperationType::Create, ctx.guild_id, m, state_map(state)));
            hooks.create(ctx, state)
        },
        Err(e) => Err(e),
    }
}

/// Update: as create, under the columns that updates ignore, with the update
/// hook.
pub fn settings_update<E: ExecutionContext, H: SettingHooks>(
    env: &E,
    hooks: &H,
    setting: &Setting,
    ctx: &HookContext,
    fields: State,
) -> (r: Result<State, SettingsError>)
    requires
        setting.wf(),
    ensures
        !setting.operations.update ==> unsupported(r, OperationType::Update),
        setting.operations.update && r is Ok ==> exists|out: Map<Seq<char>, Value>|
            prepared(*setting, OperationType::Update, ctx.guild_id, state_map(fields), out),
        setting.operations.update && !(exists|out: Map<Seq<char>, Value>| prepared(*setting, OperationType::Update, ctx.guild_id, state_map(fields), out))
            ==> (r matches Err(e) && fields_refused(*setting, OperationType::Update, ctx.guild_id, state_map(fields), e)),
{
    if !setting.operations.has(OperationType::Update) {
        return Err(SettingsError::OperationNotSupported { operation: OperationType::Update });
    }
    let ghost m = state_map(fields);
    match prepare_state(env, setting, OperationType::Update, ctx.guild_id, fields) {
        Ok(state) => {
            assert(prepared(*setting, OperationType::Update, ctx.guild_id, m, state_map(state)));
            hooks.update(ctx, state)
        },
        Err(e) => Err(e),
    }
}

/// Column `j` is the first whose id is the primary key.
pub open spec fn is_key_column(s: Setting, j: int) -> bool {
    0 <= j < s.columns@.len() && s.columns@[j].id@ == s.primary_key@ && forall|i: int|
        0 <= i < j ==> (#[trigger] s.columns@[i]).id@ != s.primary_key@
}

/// `r` is the internal error of a setting whose primary key names no column.
pub open spec fn key_column_missing<T>(r: Result<T, SettingsError>) -> bool {
    r matches Err(SettingsError::Generic { message, src, typ }) && message@ == "Primary key column not found"@
        && src@ == "settings_update [pkey_column_let_else]"@ && typ@ == "internal"@
}

/// `r` is a possible outcome of a delete whose setting has a delete hook,
/// given the primary key `pkey`: it succeeds only when the key parses against
/// the primary-key column, and the parse error of a key that cannot parse is
/// returned.
pub open spec fn delete_outcome(s: Setting, pkey: Value, r: Result<(), SettingsError>) -> bool {
    &&& (forall|j: int| 0 <= j < s.columns@.len() ==> (#[trigger] s.columns@[j]).id@ != s.primary_key@) ==> key_column_missing(r)
    &&& r is Ok ==> exists|j: int, k: Value| is_key_column(s, j) && #[trigger] parsed(pkey, s.columns@[j].column_type, s.primary_key@, Ok(k))
    &&& forall|j: int| #[trigger] is_key_column(s, j) && (forall|k: Value| !parsed(pkey, s.columns@[j].column_type, s.primary_key@, Ok(k)))
        ==> (r matches Err(e) && parsed(pkey, s.columns@[j].column_type, s.primary_key@, Err(e)))
}

proof fn lemma_key_column_exists(s: Setting, j0: int)
    requires
        0 <= j0 < s.columns@.len(),
        s.columns@[j0].id@ == s.primary_key@,
    ensures
        exists|j: int| #[trigger] is_key_column(s, j),
    decreases j0,
{
    if forall|i: int| 0 <= i < j0 ==> (#[trigger] s.columns@[i]).id@ != s.primary_key@ {
        assert(is_key_column(s, j0));
    } else {
        let i = choose|i: int| 0 <= i < j0 && (#[trigger] s.columns@[i]).id@ == s.primary_key@;
        lemma_key_column_exists(s, i);
    }
}

/// Parses a primary-key value against the type of the primary-key column.
pub fn primary_key_value<E: ExecutionContext>(env: &E, setting: &Setting, pkey: Value) -> (r: Result<Value, SettingsError>)
    ensures
        (forall|j: int| 0 <= j < setting.columns@.len() ==> (#[trigger] setting.columns@[j]).id@ != setting.primary_key@)
            ==> key_column_missing(r),
        forall|j: int| #[trigger] is_key_column(*setting, j) ==> parsed(pkey, setting.columns@[j].column_type, setting.primary_key@, r),
{
    let cols = &setting.columns;
    let mut i: usize = 0;
    while i < cols.len()
        invariant
            cols == &setting.columns,
            i <= cols@.len(),
            forall|j: int| 0 <= j < i ==> (#[trigger] cols@[j]).id@ != setting.primary_key@,
        decreases cols@.len() - i,
    {
        if cols[i].id == setting.primary_key {
            assert(is_key_column(*setting, i as int));
            proof {
                assert forall|j: int| #[trigger] is_key_column(*setting, j) implies j == i by {
                    if j < i {
                    } else if j > i {
                        assert(cols@[i as int].id@ == setting.primary_key@);
                    }
                }
            }
            return parse_value(env, pkey, &cols[i].column_type, &setting.primary_key);
        }
        i = i + 1;
    }
    Err(SettingsError::Generic {
        message: String::from_str("Primary key column not found"),
        src: String::from_str("settings_update [pkey_column_let_else]"),
        typ: String::from_str("internal"),
    })
}

/// Delete: parses the primary key against its column and hands it to the
/// delete hook.
pub fn settings_delete<E: ExecutionContext, H: SettingHooks>(
    env: &E,
    hooks: &H,
    setting: &Setting,
    ctx: &HookContext,
    pkey: Value,
) -> (r: Result<(), SettingsError>)
    ensures
        !setting.operations.delete ==> unsupported(r, OperationType::Delete),
        setting.operations.delete ==> delete_outcome(*setting, pkey, r),
{
    if !setting.operations.has(OperationType::Delete) {
        return Err(SettingsError::OperationNotSupported { operation: OperationType::Delete });
    }
    let ghost pk = pkey;
    let key = primary_key_value(env, setting, pkey);
    match key {
        Ok(k) => {
            proof {
                if exists|j: int| 0 <= j < setting.columns@.len() && (#[trigger] setting.columns@[j]).id@ == setting.primary_key@ {
                    let j0 = choose|j: int| 0 <= j < setting.columns@.len() && (#[trigger] setting.columns@[j]).id@ == setting.primary_key@;
                    lemma_key_column_exists(*setting, j0);
                    let j = choose|j: int| #[trigger] is_key_column(*setting, j);
                    assert(parsed(pk, setting.columns@[j].column_type, setting.primary_key@, Ok(k)));
                }
            }
            hooks.delete(ctx, k)
        },
        Err(e) => Err(e),
    }
}

} // verus!

verus! {

pub open spec fn unit_result(r: Result<Vec<State>, SettingsError>) -> Result<(), SettingsError> {
    match r {
        Ok(_) => Ok(()),
        Err(e) => Err(e),
    }
}

/// `r` is a possible outcome of running `op` of setting `s` on fields `m`.
pub open spec fn operation_outcome(s: Setting, op: OperationType, guild: u64, m: Map<Seq<char>, Value>, r: Result<Vec<State>, SettingsError>) -> bool {
    let key_missing = op == OperationType::Delete && !m.contains_key(s.primary_key@);
    let writes = op == OperationType::Create || op == OperationType::Update;
    &&& key_missing ==> (r matches Err(SettingsError::MissingOrInvalidField { field, src }) && field@ == s.primary_key@
        && src@ == "SettingsOperation"@)
    &&& !s.operations.supports(op) && !key_missing ==> unsupported(r, op)
    &&& (op == OperationType::Delete && r is Ok) ==> (r matches Ok(v) && v@.len() == 0)
    &&& writes && r is Ok ==> (r matches Ok(v) && v@.len() == 1)
    &&& writes && s.operations.supports(op) && r is Ok ==> exists|out: Map<Seq<char>, Value>| prepared(s, op, guild, m, out)
    &&& writes && s.operations.supports(op) && !(exists|out: Map<Seq<char>, Value>| prepared(s, op, guild, m, out))
        ==> (r matches Err(e) && fields_refused(s, op, guild, m, e))
    &&& op == OperationType::Delete && s.operations.supports(op) && !key_missing ==> delete_outcome(s, m[s.primary_key@], unit_result(r))
    &&& op == OperationType::View ==> (r matches Ok(out) ==> view_result(s, out@) && forall|i: int, j: int| 0 <= i < out@.len() && 0 <= j < s.columns@.len() ==> (
        (selects(Selection::Hidden, #[trigger] s.columns@[j]) ==> !state_map(#[trigger] out@[i]).contains_key(s.columns@[j].id@))
        && (!selects(Selection::Hidden, s.columns@[j]) ==> state_map(out@[i]).contains_key(s.columns@[j].id@))))
}

/// `r` is the error for a setting id that names no setting.
pub open spec fn setting_not_found<T>(r: Result<T, SettingsError>) -> bool {
    r matches Err(SettingsError::Generic { message, src, typ }) && message@ == "Setting not found"@
        && src@ == "SettingsOperationCore"@ && typ@ == "client"@
}

/// Runs the operation `op` of a setting on the caller's fields: the records
/// that a view returns, the one record that a create or an update stored, or
/// nothing for a delete, whose primary key is taken from the fields. `None`
/// stands for a setting id that names no setting.
pub fn settings_operation<E: ExecutionContext, H: SettingHooks>(
    env: &E,
    hooks: &H,
    setting: Option<&Setting>,
    ctx: &HookContext,
    op: OperationType,
    fields: State,
) -> (r: Result<Vec<State>, SettingsError>)
    requires
        setting matches Some(s) ==> s.wf(),
    ensures
        setting is None ==> setting_not_found(r),
        setting is Some ==> operation_outcome(*setting->Some_0, op, ctx.guild_id, state_map(fields), r),
{
    let setting = match setting {
        Some(s) => s,
        None => {
            return Err(SettingsError::Generic {
                message: String::from_str("Setting not found"),
                src: String::from_str("SettingsOperationCore"),
                typ: String::from_str("client"),
            });
        },
    };
    match op {
        OperationType::View => settings_view(env, hooks, setting, ctx, fields),
        OperationType::Create => match settings_create(env, hooks, setting, ctx, fields) {
            Ok(s) => Ok(vec![s]),
            Err(e) => Err(e),
        },
        OperationType::Update => match settings_update(env, hooks, setting, ctx, fields) {
            Ok(s) => Ok(vec![s]),
            Err(e) => Err(e),
        },
        OperationType::Delete => {
            let mut fields = fields;
            let pkey = match state_swap_remove(&mut fields, &setting.primary_key) {
                Some(v) => v,
                None => {
                    return Err(SettingsError::MissingOrInvalidField {
                        field: setting.primary_key.clone(),
                        src: String::from_str("SettingsOperation"),
                    });
                },
            };
            match settings_delete(env, hooks, setting, ctx, pkey) {
                Ok(()) => Ok(Vec::new()),
                Err(e) => Err(e),
            }
        },
    }
}

} // verus!
