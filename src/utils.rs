//! Small text formats used around the settings: shop template references,
//! job owners, and numeric id lists.
use crate::codec::{
    numeric_char, int_text, int_to_text, is_numeric, parse_u32, parse_u64, replace_text,
    text_replaced, u32_of_text, u64_of_text,
};
use vstd::prelude::*;

verus! {

/// Why a shop template reference was refused.
#[derive(Clone, Copy, Debug, PartialEq, Eq, Structural)]
pub enum ShopTemplateError {
    /// The reference has no `#` between name and version.
    InvalidShopTemplate,
}

/// The first position of `c` in `s`, if any.
pub open spec fn first_index(s: Seq<char>, c: char) -> Option<int> {
    if exists|i: int| 0 <= i < s.len() && s[i] == c {
        Some(choose|i: int| 0 <= i < s.len() && s[i] == c && forall|j: int| 0 <= j < i ==> s[j] != c)
    } else {
        None
    }
}

/// Where `c` first stands in `s`.
pub fn find_char(s: &str, c: char) -> (r: Option<usize>)
    ensures
        r matches Some(i) ==> i < s@.len() && s@[i as int] == c && forall|j: int| 0 <= j < i ==> s@[j] != c,
        r is None ==> forall|j: int| 0 <= j < s@.len() ==> s@[j] != c,
{
    let n = s.unicode_len();
    let mut i: usize = 0;
    while i < n
        invariant
            n == s@.len(),
            i <= n,
            forall|j: int| 0 <= j < i ==> s@[j] != c,
        decreases n - i,
    {
        if s.get_char(i) == c {
            return Some(i);
        }
        i = i + 1;
    }
    None
}

/// Whether two texts have the same characters.
pub fn text_is(a: &str, b: &str) -> (r: bool)
    ensures
        r == (a@ == b@),
{
    let n = a.unicode_len();
    if n != b.unicode_len() {
        return false;
    }
    let mut i: usize = 0;
    while i < n
        invariant
            n == a@.len(),
            n == b@.len(),
            i <= n,
            forall|j: int| 0 <= j < i ==> a@[j] == b@[j],
        decreases n - i,
    {
        if a.get_char(i) != b.get_char(i) {
            return false;
        }
        i = i + 1;
    }
    assert(a@ =~= b@);
    true
}

/// The text that is left once every leading `$shop/` is taken off.
pub open spec fn strip_shop(s: Seq<char>) -> Seq<char>
    decreases s.len(),
{
    if s.len() >= 6 && s.subrange(0, 6) == "$shop/"@ {
        strip_shop(s.subrange(6, s.len() as int))
    } else {
        s
    }
}

fn starts_with_shop(s: &str) -> (r: bool)
    ensures
        r == (s@.len() >= 6 && s@.subrange(0, 6) == "$shop/"@),
{
    proof {
        reveal_strlit("$shop/");
    }
    if s.unicode_len() < 6 {
        return false;
    }
    let ok = s.get_char(0) == '$' && s.get_char(1) == 's' && s.get_char(2) == 'h' && s.get_char(3) == 'o'
        && s.get_char(4) == 'p' && s.get_char(5) == '/';
    let ghost p = seq!['$', 's', 'h', 'o', 'p', '/'];
    assert("$shop/"@ =~= p);
    assert(ok ==> s@.subrange(0, 6) =~= p);
    proof {
        if s@.subrange(0, 6) == p {
            assert(s@.subrange(0, 6)[0] == p[0] && s@.subrange(0, 6)[1] == p[1] && s@.subrange(0, 6)[2] == p[2]);
            assert(s@.subrange(0, 6)[3] == p[3] && s@.subrange(0, 6)[4] == p[4] && s@.subrange(0, 6)[5] == p[5]);
        }
    }
    ok
}

/// Splits a shop template reference `$shop/<name>#<version>` (the prefix
/// may repeat or be absent) into name and version, at the first `#`.
pub fn parse_shop_template(s: &str) -> (r: Result<(String, String), ShopTemplateError>)
    ensures
        ({
            let t = strip_shop(s@);
            match r {
                Ok((name, version)) => exists|i: int|
                    0 <= i < t.len() && t[i] == '#' && (forall|j: int| 0 <= j < i ==> t[j] != '#') && name@ == t.subrange(0, i)
                        && version@ == t.subrange(i + 1, t.len() as int),
                Err(_) => forall|j: int| 0 <= j < t.len() ==> t[j] != '#',
            }
        }),
{
    let mut rest = s;
    while starts_with_shop(rest)
        invariant
            strip_shop(rest@) == strip_shop(s@),
        decreases rest@.len(),
    {
        let n = rest.unicode_len();
        rest = rest.substring_char(6, n);
    }
    let n = rest.unicode_len();
    match find_char(rest, '#') {
        Some(i) => {
            let name = rest.substring_char(0, i);
            let version = rest.substring_char(i + 1, n);
            Ok((String::from_str(name), String::from_str(version)))
        },
        None => Err(ShopTemplateError::InvalidShopTemplate),
    }
}

/// Writes the shop template reference for a name and a version.
pub fn create_shop_template(template: &str, version: &str) -> (r: String)
    ensures
        r@ == "$shop/"@ + template@ + "#"@ + version@,
{
    let mut s = String::from_str("$shop/");
    s.append(template);
    s.append("#");
    s.append(version);
    s
}

/// The limits of a template's key-value store.
#[derive(Clone, Copy, Debug, PartialEq, Eq, Structural)]
pub struct LuaKVConstraints {
    /// Maximum number of keys allowed in the store
    pub max_keys: usize,
    /// Maximum length of a key
    pub max_key_length: usize,
    /// Maximum length of a value (in bytes)
    pub max_value_bytes: usize,
    /// Maximum length of an object storage path
    pub max_object_storage_path_length: usize,
    /// Maximum length of an object storage payload (in bytes)
    pub max_object_storage_bytes: usize,
}

impl Default for LuaKVConstraints {
    fn default() -> (r: Self)
        ensures
            r.max_keys == 10000 && r.max_key_length == 512 && r.max_value_bytes == 256 * 1024
                && r.max_object_storage_path_length == 2048 && r.max_object_storage_bytes == 512 * 1024,
    {
        LuaKVConstraints {
            max_keys: 10000,
            max_key_length: 512,
            max_value_bytes: 256 * 1024,
            max_object_storage_path_length: 2048,
            max_object_storage_bytes: 512 * 1024,
        }
    }
}

/// How often a job is polled, and how long it may go without a change of
/// status.
#[derive(Clone, Copy, Debug, PartialEq, Eq, Structural)]
pub struct PollTaskOptions {
    /// The interval at which to poll, in seconds
    pub interval: u64,
    /// The time to wait for the job's status to change, in seconds
    pub timeout_nostatuschange: u64,
}

impl Default for PollTaskOptions {
    fn default() -> (r: Self)
        ensures
            r == (PollTaskOptions { interval: 1, timeout_nostatuschange: 300 }),
    {
        PollTaskOptions { interval: 1, timeout_nostatuschange: 300 }
    }
}

/// The owner of a job: `<target_type>/<id>`.
#[derive(Clone, Debug)]
pub struct Owner {
    pub id: String,
    pub target_type: String,
}

/// Why an owner text was refused.
#[derive(Clone, Copy, Debug, PartialEq, Eq, Structural)]
pub enum OwnerError {
    /// The text has no `/` before the id.
    MissingId,
}

impl Owner {
    /// Reads `<target_type>/<id>`, split at the first `/`.
    pub fn from_str(s: &str) -> (r: Result<Owner, OwnerError>)
        ensures
            r matches Ok(o) ==> exists|i: int|
                0 <= i < s@.len() && s@[i] == '/' && (forall|j: int| 0 <= j < i ==> s@[j] != '/') && o.target_type@ == s@.subrange(0, i)
                    && o.id@ == s@.subrange(i + 1, s@.len() as int),
            r is Err ==> forall|j: int| 0 <= j < s@.len() ==> s@[j] != '/',
    {
        let n = s.unicode_len();
        match find_char(s, '/') {
            Some(i) => Ok(Owner {
                id: String::from_str(s.substring_char(i + 1, n)),
                target_type: String::from_str(s.substring_char(0, i)),
            }),
            None => Err(OwnerError::MissingId),
        }
    }
}

} // verus!

verus! {

/// A numeric list held a number that does not fit in 64 bits, or a numeric
/// character that is not a decimal digit.
#[derive(Clone, Copy, Debug, PartialEq, Eq, Structural)]
pub struct NumericListError;

/// A text after each replacement of the table, in order.
pub open spec fn replaced_all(s: Seq<char>, table: Seq<(Seq<char>, Seq<char>)>) -> Seq<char>
    decreases table.len(),
{
    if table.len() == 0 {
        s
    } else {
        text_replaced(replaced_all(s, table.drop_last()), table.last().0, table.last().1)
    }
}

/// Reads a text from left to right: each run of numeric characters is a
/// number, and a run that a non-numeric character ends is read after the
/// replacements. Gives the numbers read and the run still open.
pub open spec fn scan_numbers(s: Seq<char>, table: Seq<(Seq<char>, Seq<char>)>) -> Option<(Seq<u64>, Seq<char>)>
    decreases s.len(),
{
    if s.len() == 0 {
        Some((Seq::empty(), Seq::empty()))
    } else {
        match scan_numbers(s.drop_last(), table) {
            None => None,
            Some((list, cur)) => {
                let c = s.last();
                if numeric_char(c) {
                    Some((list, cur.push(c)))
                } else if cur.len() > 0 {
                    match u64_of_text(replaced_all(cur, table)) {
                        Some(n) => Some((list.push(n), Seq::empty())),
                        None => None,
                    }
                } else {
                    Some((list, cur))
                }
            },
        }
    }
}

/// The numbers of a text, whatever separates them; the last run is read
/// as it stands.
pub open spec fn numeric_list(s: Seq<char>, table: Seq<(Seq<char>, Seq<char>)>) -> Option<Seq<u64>> {
    match scan_numbers(s, table) {
        None => None,
        Some((list, cur)) => if cur.len() == 0 {
            Some(list)
        } else {
            match u64_of_text(cur) {
                Some(n) => Some(list.push(n)),
                None => None,
            }
        },
    }
}

pub open spec fn table_view(replace: Seq<(&str, &str)>) -> Seq<(Seq<char>, Seq<char>)> {
    replace.map_values(|p: (&str, &str)| (p.0@, p.1@))
}

fn apply_replacements(s: String, replace: &[(&str, &str)]) -> (r: String)
    ensures
        r@ == replaced_all(s@, table_view(replace@)),
{
    let mut t = s;
    let mut i: usize = 0;
    while i < replace.len()
        invariant
            i <= replace@.len(),
            t@ == replaced_all(s@, table_view(replace@).subrange(0, i as int)),
        decreases replace@.len() - i,
    {
        let (from, to) = replace[i];
        proof {
            assert(table_view(replace@).subrange(0, i + 1).drop_last() == table_view(replace@).subrange(0, i as int));
        }
        t = replace_text(t.as_str(), from, to);
        i = i + 1;
    }
    assert(table_view(replace@).subrange(0, replace@.len() as int) == table_view(replace@));
    t
}

/// Reads the numbers of a text without knowing its separator: each run of
/// numeric characters is one number. Each run but the last is read after
/// the replacements of `replace`.
pub fn parse_numeric_list(s: &str, replace: &[(&str, &str)]) -> (r: Result<Vec<u64>, NumericListError>)
    ensures
        match numeric_list(s@, table_view(replace@)) {
            Some(l) => r matches Ok(v) && v@ == l,
            None => r is Err,
        },
{
    let ghost table = table_view(replace@);
    let n = s.unicode_len();
    let mut list: Vec<u64> = Vec::new();
    let mut start: usize = 0;
    let mut i: usize = 0;
    while i < n
        invariant
            n == s@.len(),
            table == table_view(replace@),
            start <= i <= n,
            scan_numbers(s@.subrange(0, i as int), table) == Some((list@, s@.subrange(start as int, i as int))),
        decreases n - i,
    {
        let c = s.get_char(i);
        proof {
            assert(s@.subrange(0, i + 1).drop_last() == s@.subrange(0, i as int));
            assert(s@.subrange(0, i + 1).last() == c);
        }
        if is_numeric(c) {
            assert(s@.subrange(start as int, i as int).push(c) == s@.subrange(start as int, i + 1));
        } else {
            if start < i {
                let run = String::from_str(s.substring_char(start, i));
                let text = apply_replacements(run, replace);
                match parse_u64(text.as_str()) {
                    Some(v) => {
                        list.push(v);
                    },
                    None => {
                        proof {
                            lemma_scan_fails(s@, table, i as int + 1);
                        }
                        return Err(NumericListError);
                    },
                }
            }
            start = i + 1;
            assert(s@.subrange(start as int, i + 1) == Seq::<char>::empty());
        }
        i = i + 1;
    }
    assert(s@.subrange(0, n as int) == s@);
    if start < n {
        match parse_u64(s.substring_char(start, n)) {
            Some(v) => {
                list.push(v);
            },
            None => {
                return Err(NumericListError);
            },
        }
    }
    Ok(list)
}

proof fn lemma_scan_fails(s: Seq<char>, table: Seq<(Seq<char>, Seq<char>)>, k: int)
    requires
        0 <= k <= s.len(),
        scan_numbers(s.subrange(0, k), table) is None,
    ensures
        numeric_list(s, table) is None,
    decreases s.len() - k,
{
    if k == s.len() {
        assert(s.subrange(0, k) == s);
    } else {
        assert(s.subrange(0, k + 1).drop_last() == s.subrange(0, k));
        lemma_scan_fails(s, table, k + 1);
    }
}

/// As `parse_numeric_list`, with each number written back in decimal.
pub fn parse_numeric_list_to_str(s: &str, replace: &[(&str, &str)]) -> (r: Result<Vec<String>, NumericListError>)
    ensures
        match numeric_list(s@, table_view(replace@)) {
            Some(l) => r matches Ok(v) && v@.len() == l.len() && forall|i: int|
                0 <= i < l.len() ==> (#[trigger] v@[i])@ == int_text(l[i] as int),
            None => r is Err,
        },
{
    let nums = match parse_numeric_list(s, replace) {
        Ok(v) => v,
        Err(e) => {
            return Err(e);
        },
    };
    let mut out: Vec<String> = Vec::new();
    let mut i: usize = 0;
    while i < nums.len()
        invariant
            i <= nums@.len(),
            out@.len() == i,
            forall|j: int| 0 <= j < i ==> (#[trigger] out@[j])@ == int_text(nums@[j] as int),
        decreases nums@.len() - i,
    {
        out.push(int_to_text(nums[i] as i128));
        i = i + 1;
    }
    Ok(out)
}

} // verus!

verus! {

/// Why a list of special allocations was refused.
#[derive(Clone, Copy, Debug, PartialEq, Eq, Structural)]
pub enum SpecialAllocationError {
    /// An entry is not of the form `<channel>=<number>`.
    InvalidFormat,
    /// The number of an entry is not a `u32`.
    InvalidNumber,
}

/// What one comma-separated entry `<channel>=<number>` gives: nothing for an
/// empty entry, else the channel and the number.
pub open spec fn allocation_entry(p: Seq<char>) -> Option<Result<(Seq<char>, u32), SpecialAllocationError>> {
    if p.len() == 0 {
        None
    } else {
        match first_index(p, '=') {
            None => Some(Err(SpecialAllocationError::InvalidFormat)),
            Some(i) => if exists|j: int| i < j < p.len() && p[j] == '=' {
                Some(Err(SpecialAllocationError::InvalidFormat))
            } else {
                match u32_of_text(p.subrange(i + 1, p.len() as int)) {
                    Some(n) => Some(Ok((p.subrange(0, i), n))),
                    None => Some(Err(SpecialAllocationError::InvalidNumber)),
                }
            },
        }
    }
}

/// Reads a text of comma-separated entries from left to right: gives the
/// allocations of the entries that a comma has closed, and the entry still
/// open.
pub open spec fn scan_allocations(s: Seq<char>) -> Result<(Map<Seq<char>, u32>, Seq<char>), SpecialAllocationError>
    decreases s.len(),
{
    if s.len() == 0 {
        Ok((Map::empty(), Seq::empty()))
    } else {
        match scan_allocations(s.drop_last()) {
            Err(e) => Err(e),
            Ok((m, cur)) => if s.last() == ',' {
                match allocation_entry(cur) {
                    None => Ok((m, Seq::empty())),
                    Some(Err(e)) => Err(e),
                    Some(Ok((k, n))) => Ok((m.insert(k, n), Seq::empty())),
                }
            } else {
                Ok((m, cur.push(s.last())))
            },
        }
    }
}

/// The allocations of a text of comma-separated `<channel>=<number>`
/// entries; a later entry for a channel replaces an earlier one.
pub open spec fn special_allocations(s: Seq<char>) -> Result<Map<Seq<char>, u32>, SpecialAllocationError> {
    match scan_allocations(s) {
        Err(e) => Err(e),
        Ok((m, cur)) => match allocation_entry(cur) {
            None => Ok(m),
            Some(Err(e)) => Err(e),
            Some(Ok((k, n))) => Ok(m.insert(k, n)),
        },
    }
}

/// The map that a list of entries with distinct keys stands for.
#[verifier::opaque]
pub open spec fn entries_map(v: Seq<(String, u32)>) -> Map<Seq<char>, u32> {
    Map::new(|k: Seq<char>| exists|i: int| 0 <= i < v.len() && (#[trigger] v[i]).0@ == k, |k: Seq<char>| v[choose|i: int| 0 <= i < v.len() && (#[trigger] v[i]).0@ == k].1)
}

pub open spec fn distinct_keys(v: Seq<(String, u32)>) -> bool {
    forall|i: int, j: int| 0 <= i < j < v.len() ==> (#[trigger] v[i]).0@ != (#[trigger] v[j]).0@
}

fn allocation_of(p: &str) -> (r: Option<Result<(String, u32), SpecialAllocationError>>)
    ensures
        match allocation_entry(p@) {
            None => r is None,
            Some(Err(e)) => r == Some(Err::<(String, u32), SpecialAllocationError>(e)),
            Some(Ok((k, n))) => r matches Some(Ok((key, m))) && key@ == k && m == n,
        },
{
    let n = p.unicode_len();
    if n == 0 {
        return None;
    }
    let i = match find_char(p, '=') {
        Some(i) => i,
        None => {
            assert(first_index(p@, '=') is None);
            return Some(Err(SpecialAllocationError::InvalidFormat));
        },
    };
    let ghost fi = choose|k: int| 0 <= k < p@.len() && p@[k] == '=' && forall|j: int| 0 <= j < k ==> p@[j] != '=';
    proof {
        if fi < i {
        } else if fi > i {
        }
        assert(fi == i);
    }
    let rest = p.substring_char(i + 1, n);
    if let Some(j) = find_char(rest, '=') {
        assert(p@[i + 1 + j] == rest@[j as int]);
        return Some(Err(SpecialAllocationError::InvalidFormat));
    }
    proof {
        assert forall|j: int| i < j < p@.len() implies p@[j] != '=' by {
            assert(p@[j] == rest@[j - i - 1]);
        }
    }
    match parse_u32(rest) {
        Some(v) => Some(Ok((String::from_str(p.substring_char(0, i)), v))),
        None => Some(Err(SpecialAllocationError::InvalidNumber)),
    }
}

/// Sets `key` to `n` in a list of entries with distinct keys: in place when
/// the key is there, at the end otherwise.
fn put_entry(v: &mut Vec<(String, u32)>, key: String, n: u32)
    requires
        distinct_keys(old(v)@),
    ensures
        distinct_keys(final(v)@),
        entries_map(final(v)@) == entries_map(old(v)@).insert(key@, n),
{
    let ghost v0 = v@;
    reveal(entries_map);
    let mut i: usize = 0;
    while i < v.len()
        invariant
            v@ == v0,
            v0 == old(v)@,
            distinct_keys(v0),
            i <= v@.len(),
            forall|j: int| 0 <= j < i ==> (#[trigger] v@[j]).0@ != key@,
        decreases v@.len() - i,
    {
        if v[i].0 == key {
            v.set(i, (key, n));
            proof {
                reveal(entries_map);
                assert forall|a: int, b: int| 0 <= a < b < v@.len() implies (#[trigger] v@[a]).0@ != (#[trigger] v@[b]).0@ by {
                    assert(v0[a].0@ != v0[b].0@);
                }
                assert forall|k: Seq<char>| #[trigger] entries_map(v@).contains_key(k) == entries_map(v0).insert(key@, n).contains_key(k) by {
                    if exists|j: int| 0 <= j < v0.len() && (#[trigger] v0[j]).0@ == k {
                        let j = choose|j: int| 0 <= j < v0.len() && (#[trigger] v0[j]).0@ == k;
                        assert(v@[j].0@ == k);
                    }
                    if exists|j: int| 0 <= j < v@.len() && (#[trigger] v@[j]).0@ == k {
                        let j = choose|j: int| 0 <= j < v@.len() && (#[trigger] v@[j]).0@ == k;
                        assert(v0[j].0@ == k);
                    }
                }
                assert forall|k: Seq<char>| entries_map(v@).contains_key(k) implies #[trigger] entries_map(v@)[k] == entries_map(v0).insert(key@, n)[k] by {
                    let j = choose|j: int| 0 <= j < v@.len() && (#[trigger] v@[j]).0@ == k;
                    if k != key@ {
                        let j0 = choose|j: int| 0 <= j < v0.len() && (#[trigger] v0[j]).0@ == k;
                        assert(j == j0);
                    }
                }
                assert(entries_map(v@) =~= entries_map(v0).insert(key@, n));
            }
            return;
        }
        i = i + 1;
    }
    v.push((key, n));
    proof {
        reveal(entries_map);
        let last = v@.len() - 1;
        assert forall|a: int, b: int| 0 <= a < b < v@.len() implies (#[trigger] v@[a]).0@ != (#[trigger] v@[b]).0@ by {
            if b < last {
                assert(v0[a].0@ != v0[b].0@);
            }
        }
        assert forall|k: Seq<char>| #[trigger] entries_map(v@).contains_key(k) == entries_map(v0).insert(key@, n).contains_key(k) by {
            if exists|j: int| 0 <= j < v0.len() && (#[trigger] v0[j]).0@ == k {
                let j = choose|j: int| 0 <= j < v0.len() && (#[trigger] v0[j]).0@ == k;
                assert(v@[j].0@ == k);
            }
            if k == key@ {
                assert(v@[last].0@ == k);
            }
            if exists|j: int| 0 <= j < v@.len() && (#[trigger] v@[j]).0@ == k {
                let j = choose|j: int| 0 <= j < v@.len() && (#[trigger] v@[j]).0@ == k;
                if j < last {
                    assert(v0[j].0@ == k);
                }
            }
        }
        assert forall|k: Seq<char>| entries_map(v@).contains_key(k) implies #[trigger] entries_map(v@)[k] == entries_map(v0).insert(key@, n)[k] by {
            let j = choose|j: int| 0 <= j < v@.len() && (#[trigger] v@[j]).0@ == k;
            if k != key@ {
                let j0 = choose|j: int| 0 <= j < v0.len() && (#[trigger] v0[j]).0@ == k;
                assert(v@[j0] == v0[j0]);
                assert(j == j0);
            } else {
                assert(j == last);
            }
        }
        assert(entries_map(v@) =~= entries_map(v0).insert(key@, n));
    }
}

} // verus!

verus! {

proof fn lemma_allocations_fail(s: Seq<char>, k: int, e: SpecialAllocationError)
    requires
        0 <= k <= s.len(),
        scan_allocations(s.subrange(0, k)) == Err::<(Map<Seq<char>, u32>, Seq<char>), SpecialAllocationError>(e),
    ensures
        special_allocations(s) == Err::<Map<Seq<char>, u32>, SpecialAllocationError>(e),
    decreases s.len() - k,
{
    if k == s.len() {
        assert(s.subrange(0, k) == s);
    } else {
        assert(s.subrange(0, k + 1).drop_last() == s.subrange(0, k));
        lemma_allocations_fail(s, k + 1, e);
    }
}

/// Reads comma-separated `<channel>=<number>` entries, skipping empty ones,
/// into one entry per channel; a later entry for a channel replaces the
/// value of an earlier one.
pub fn create_special_allocation_from_str(special_allocations: &str) -> (r: Result<Vec<(String, u32)>, SpecialAllocationError>)
    ensures
        match crate::utils::special_allocations(special_allocations@) {
            Ok(m) => r matches Ok(v) && distinct_keys(v@) && entries_map(v@) == m,
            Err(e) => r == Err::<Vec<(String, u32)>, SpecialAllocationError>(e),
        },
{
    let s = special_allocations;
    let n = s.unicode_len();
    let mut out: Vec<(String, u32)> = Vec::new();
    let mut start: usize = 0;
    let mut i: usize = 0;
    proof {
        reveal(entries_map);
        assert(entries_map(out@) =~= Map::<Seq<char>, u32>::empty());
        assert(s@.subrange(0, 0) =~= Seq::<char>::empty());
    }
    while i < n
        invariant
            s@ == special_allocations@,
            n == s@.len(),
            start <= i <= n,
            distinct_keys(out@),
            scan_allocations(s@.subrange(0, i as int)) == Ok::<(Map<Seq<char>, u32>, Seq<char>), SpecialAllocationError>(
                (entries_map(out@), s@.subrange(start as int, i as int)),
            ),
        decreases n - i,
    {
        let c = s.get_char(i);
        proof {
            assert(s@.subrange(0, i + 1).drop_last() == s@.subrange(0, i as int));
            assert(s@.subrange(0, i + 1).last() == c);
        }
        if c == ',' {
            let piece = s.substring_char(start, i);
            match allocation_of(piece) {
                None => {},
                Some(Ok((key, v))) => {
                    put_entry(&mut out, key, v);
                },
                Some(Err(e)) => {
                    proof {
                        lemma_allocations_fail(s@, i + 1, e);
                    }
                    return Err(e);
                },
            }
            start = i + 1;
            assert(s@.subrange(start as int, i + 1) == Seq::<char>::empty());
        } else {
            assert(s@.subrange(start as int, i as int).push(c) == s@.subrange(start as int, i + 1));
        }
        i = i + 1;
    }
    assert(s@.subrange(0, n as int) == s@);
    let piece = s.substring_char(start, n);
    match allocation_of(piece) {
        None => {},
        Some(Ok((key, v))) => {
            put_entry(&mut out, key, v);
        },
        Some(Err(e)) => {
            return Err(e);
        },
    }
    Ok(out)
}

} // verus!
