use crate::value::Value;
use indexmap::IndexMap;
use std::hash::RandomState;
use vstd::prelude::*;

verus! {

#[verifier::external_type_specification]
#[verifier::external_body]
#[verifier::reject_recursive_types(K)]
#[verifier::reject_recursive_types(V)]
#[verifier::reject_recursive_types(S)]
pub struct ExIndexMap<K, V, S>(IndexMap<K, V, S>);

/// One record's working set: an insertion-ordered map from column id to value.
pub type State = IndexMap<String, Value, RandomState>;

/// What a state holds: each key (by its characters) with its value.
pub uninterp spec fn state_map(m: State) -> Map<Seq<char>, Value>;

/// Relies on `IndexMap::get`: the value stored under `key`, if any.
#[verifier::external_body]
pub(crate) fn state_get<'a>(m: &'a State, key: &String) -> (r: Option<&'a Value>)
    ensures
        state_map(*m).contains_key(key@) ==> r == Some(&state_map(*m)[key@]),
        !state_map(*m).contains_key(key@) ==> r is None,
{
    m.get(key)
}

/// Relies on `IndexMap::insert`: afterwards `key` maps to `v`, the other
/// entries are kept.
#[verifier::external_body]
pub(crate) fn state_insert(m: &mut State, key: String, v: Value)
    ensures
        state_map(*final(m)) == state_map(*old(m)).insert(key@, v),
{
    m.insert(key, v);
}

/// Relies on `IndexMap::swap_remove`: takes the entry of `key` out of the
/// map and returns its value, if there was one.
#[verifier::external_body]
pub(crate) fn state_swap_remove(m: &mut State, key: &String) -> (r: Option<Value>)
    ensures
        state_map(*final(m)) == state_map(*old(m)).remove(key@),
        state_map(*old(m)).contains_key(key@) ==> r == Some(state_map(*old(m))[key@]),
        !state_map(*old(m)).contains_key(key@) ==> r is None,
{
    m.swap_remove(key)
}

} // verus!

verus! {

/// The bits of a bit-flag column, by label, in declaration order.
pub type FlagTable = IndexMap<String, i64, RandomState>;

/// What a flag table holds: its entries in order.
pub uninterp spec fn flag_entries(m: FlagTable) -> Seq<(Seq<char>, i64)>;

/// Relies on `IndexMap::len`.
#[verifier::external_body]
pub(crate) fn flag_count(m: &FlagTable) -> (r: usize)
    ensures
        r == flag_entries(*m).len(),
{
    m.len()
}

/// Relies on indexing an `IndexMap` by position: the value of the `i`-th entry.
#[verifier::external_body]
pub(crate) fn flag_at(m: &FlagTable, i: usize) -> (r: i64)
    requires
        i < flag_entries(*m).len(),
    ensures
        r == flag_entries(*m)[i as int].1,
{
    m[i]
}

} // verus!
