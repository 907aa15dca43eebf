use vstd::prelude::*;

use indexmap::IndexMap;

verus! {

#[verifier::external_type_specification]
#[verifier::external_body]
#[verifier::reject_recursive_types(K)]
#[verifier::reject_recursive_types(V)]
#[verifier::reject_recursive_types(S)]
pub struct ExIndexMap<K, V, S>(IndexMap<K, V, S>);

/// What an insertion-ordered map of registry codes holds: its entries in
/// insertion order, each a key (as characters) with its code.
pub uninterp spec fn om_entries(m: IndexMap<String, u64>) -> Seq<(Seq<char>, u64)>;

/// The first index of `entries` holding `key`, or `-1` when absent.
pub open spec fn entry_index(entries: Seq<(Seq<char>, u64)>, key: Seq<char>) -> int
    decreases entries.len(),
{
    if entries.len() == 0 {
        -1
    } else if entries[0].0 == key {
        0
    } else {
        let rest = entry_index(entries.drop_first(), key);
        if rest == -1 {
            -1
        } else {
            rest + 1
        }
    }
}

/// Relies on indexmap::IndexMap::new: a fresh map holds no entries.
#[verifier::external_body]
pub fn om_new() -> (r: IndexMap<String, u64>)
    ensures
        om_entries(r) == Seq::<(Seq<char>, u64)>::empty(),
{
    IndexMap::new()
}

/// Relies on indexmap::IndexMap::len: the number of entries.
#[verifier::external_body]
pub fn om_len(m: &IndexMap<String, u64>) -> (r: usize)
    ensures
        r == om_entries(*m).len(),
{
    m.len()
}

/// Relies on indexmap::IndexMap::insert: an equivalent key keeps its place
/// in the order and has its value updated; a new key is appended last.
#[verifier::external_body]
pub fn om_insert(m: &mut IndexMap<String, u64>, key: String, value: u64)
    ensures
        ({
            let e = om_entries(*old(m));
            let i = entry_index(e, key@);
            if i >= 0 {
                om_entries(*final(m)) == e.update(i, (e[i].0, value))
            } else {
                om_entries(*final(m)) == e.push((key@, value))
            }
        }),
{
    m.insert(key, value);
}

/// Relies on indexmap::IndexMap::get: the stored value for the key, if it
/// is present.
#[verifier::external_body]
pub fn om_get(m: &IndexMap<String, u64>, key: &String) -> (r: Option<u64>)
    ensures
        ({
            let e = om_entries(*m);
            let i = entry_index(e, key@);
            if i >= 0 {
                r == Some(e[i].1)
            } else {
                r is None
            }
        }),
{
    m.get(key).copied()
}

/// Relies on indexmap::IndexMap::get_index: the entry at a position of the
/// insertion order; valid positions are exactly those below the length.
#[verifier::external_body]
pub fn om_get_index(m: &IndexMap<String, u64>, i: usize) -> (r: Option<(String, u64)>)
    ensures
        ({
            let e = om_entries(*m);
            if i < e.len() {
                r matches Some(p) && p.0@ == e[i as int].0 && p.1 == e[i as int].1
            } else {
                r is None
            }
        }),
{
    m.get_index(i).map(|(k, v)| (k.clone(), *v))
}

} // verus!
