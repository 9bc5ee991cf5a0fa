//! The ordered pattern map of `indexmap`, keyed by pattern identifier.
//!
//! The map itself is `indexmap::IndexMap`; the items here state, over the sequence of
//! its entries in order, what the map operations that the library uses do.
use vstd::prelude::*;
use indexmap::IndexMap;
use crate::patterns::{CodePattern, PatternView};

verus! {

/// Declares `indexmap::IndexMap`; its contents are known only through `pattern_entries`.
#[verifier::external_type_specification]
#[verifier::external_body]
#[verifier::reject_recursive_types(K)]
#[verifier::reject_recursive_types(V)]
#[verifier::reject_recursive_types(S)]
pub struct ExIndexMap<K, V, S>(IndexMap<K, V, S>);

/// The entries of a pattern map, in the map's order: each key with its pattern.
pub uninterp spec fn pattern_entries(m: IndexMap<String, CodePattern>) -> Seq<(Seq<char>, PatternView)>;

/// The keys of a list of entries.
pub open spec fn entry_keys(e: Seq<(Seq<char>, PatternView)>) -> Seq<Seq<char>> {
    e.map_values(|x: (Seq<char>, PatternView)| x.0)
}

/// Calls `IndexMap::new`: the new map has no entries.
#[verifier::external_body]
pub(crate) fn map_new() -> (m: IndexMap<String, CodePattern>)
    ensures
        pattern_entries(m) == Seq::<(Seq<char>, PatternView)>::empty(),
{
    IndexMap::new()
}

/// Calls `IndexMap::len`: the number of entries.
#[verifier::external_body]
pub(crate) fn map_len(m: &IndexMap<String, CodePattern>) -> (n: usize)
    ensures
        n == pattern_entries(*m).len(),
{
    m.len()
}

/// Calls `IndexMap::is_empty`: whether there are no entries.
#[verifier::external_body]
pub(crate) fn map_is_empty(m: &IndexMap<String, CodePattern>) -> (b: bool)
    ensures
        b == (pattern_entries(*m).len() == 0),
{
    m.is_empty()
}

/// Calls `IndexMap::insert`. When the key is present, its entry keeps its place and takes
/// the new value, and the old value is returned; otherwise the entry is appended and
/// `None` is returned. Keys stay distinct.
#[verifier::external_body]
pub(crate) fn map_insert(
    m: &mut IndexMap<String, CodePattern>,
    key: String,
    value: CodePattern,
) -> (r: Option<CodePattern>)
    requires
        entry_keys(pattern_entries(*old(m))).no_duplicates(),
    ensures
        entry_keys(pattern_entries(*final(m))).no_duplicates(),
        ({
            let e = pattern_entries(*old(m));
            let ks = entry_keys(e);
            if ks.contains(key@) {
                &&& pattern_entries(*final(m)) == e.update(ks.index_of(key@), (key@, value@))
                &&& r matches Some(v) && v@ == e[ks.index_of(key@)].1
            } else {
                &&& pattern_entries(*final(m)) == e.push((key@, value@))
                &&& r is None
            }
        }),
{
    m.insert(key, value)
}

/// Calls `IndexMap::shift_remove`. When the key is present, its entry is removed, the
/// entries after it keep their order, and its value is returned; otherwise nothing
/// changes and `None` is returned.
#[verifier::external_body]
pub(crate) fn map_shift_remove(
    m: &mut IndexMap<String, CodePattern>,
    key: &str,
) -> (r: Option<CodePattern>)
    requires
        entry_keys(pattern_entries(*old(m))).no_duplicates(),
    ensures
        entry_keys(pattern_entries(*final(m))).no_duplicates(),
        ({
            let e = pattern_entries(*old(m));
            let ks = entry_keys(e);
            if ks.contains(key@) {
                &&& pattern_entries(*final(m)) == e.remove(ks.index_of(key@))
                &&& r matches Some(v) && v@ == e[ks.index_of(key@)].1
            } else {
                &&& pattern_entries(*final(m)) == e
                &&& r is None
            }
        }),
{
    m.shift_remove(key)
}

/// Calls `IndexMap::get`: the value stored under the key, if any.
#[verifier::external_body]
pub(crate) fn map_get<'a>(
    m: &'a IndexMap<String, CodePattern>,
    key: &str,
) -> (r: Option<&'a CodePattern>)
    requires
        entry_keys(pattern_entries(*m)).no_duplicates(),
    ensures
        ({
            let e = pattern_entries(*m);
            let ks = entry_keys(e);
            if ks.contains(key@) {
                r matches Some(v) && v@ == e[ks.index_of(key@)].1
            } else {
                r is None
            }
        }),
{
    m.get(key)
}

/// Calls `IndexMap::get_index`: the entry at a position in the map's order, if any.
#[verifier::external_body]
pub(crate) fn map_get_index<'a>(
    m: &'a IndexMap<String, CodePattern>,
    i: usize,
) -> (r: Option<(&'a String, &'a CodePattern)>)
    ensures
        r is Some <==> i < pattern_entries(*m).len(),
        r matches Some(kv) ==> kv.0@ == pattern_entries(*m)[i as int].0,
        r matches Some(kv) ==> kv.1@ == pattern_entries(*m)[i as int].1,
{
    m.get_index(i)
}

} // verus!
