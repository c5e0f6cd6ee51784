//! The insertion-ordered maps of the `indexmap` crate, seen as sequences of
//! `(key, value)` pairs with distinct keys.

use crate::text::views;
use crate::tool_versions::ToolVersionPlugin;
use indexmap::IndexMap;
use vstd::prelude::*;

verus! {

#[verifier::external_type_specification]
#[verifier::external_body]
#[verifier::reject_recursive_types(K)]
#[verifier::reject_recursive_types(V)]
#[verifier::reject_recursive_types(S)]
pub struct ExIndexMap<K, V, S>(IndexMap<K, V, S>);

/// Whether some pair of `es` has the key `k`.
pub open spec fn has_key<V>(es: Seq<(Seq<char>, V)>, k: Seq<char>) -> bool {
    exists|i: int| 0 <= i < es.len() && #[trigger] es[i].0 == k
}

/// The position of the pair with key `k`, where `has_key(es, k)`.
pub open spec fn key_pos<V>(es: Seq<(Seq<char>, V)>, k: Seq<char>) -> int {
    choose|i: int| 0 <= i < es.len() && #[trigger] es[i].0 == k
}

/// No two pairs of `es` share a key.
pub open spec fn unique_keys<V>(es: Seq<(Seq<char>, V)>) -> bool {
    forall|i: int, j: int|
        0 <= i < es.len() && 0 <= j < es.len() && #[trigger] es[i].0 == #[trigger] es[j].0 ==> i
            == j
}

/// `es` after inserting `(k, v)`: a pair with key `k` keeps its place and takes
/// the value `v`; otherwise the pair goes last.
pub open spec fn insert_entry<V>(es: Seq<(Seq<char>, V)>, k: Seq<char>, v: V) -> Seq<
    (Seq<char>, V),
> {
    if has_key(es, k) {
        es.update(key_pos(es, k), (k, v))
    } else {
        es.push((k, v))
    }
}

/// `es` without the pair with key `k`, the others keeping their order.
pub open spec fn remove_key<V>(es: Seq<(Seq<char>, V)>, k: Seq<char>) -> Seq<(Seq<char>, V)> {
    if has_key(es, k) {
        es.remove(key_pos(es, k))
    } else {
        es
    }
}

pub proof fn lemma_key_pos<V>(es: Seq<(Seq<char>, V)>, i: int)
    requires
        unique_keys(es),
        0 <= i < es.len(),
    ensures
        has_key(es, es[i].0),
        key_pos(es, es[i].0) == i,
{
    assert(es[i].0 == es[i].0);
}

pub proof fn lemma_unique_push<V>(es: Seq<(Seq<char>, V)>, k: Seq<char>, v: V)
    requires
        unique_keys(es),
        !has_key(es, k),
    ensures
        unique_keys(es.push((k, v))),
{
    let e2 = es.push((k, v));
    assert forall|i: int, j: int|
        0 <= i < e2.len() && 0 <= j < e2.len() && #[trigger] e2[i].0 == #[trigger] e2[j].0 implies i
        == j by {
        if i < es.len() && j < es.len() {
            assert(es[i].0 == es[j].0);
        } else if i < es.len() {
            assert(es[i].0 == k);
        } else if j < es.len() {
            assert(es[j].0 == k);
        }
    }
}

/// Inserting keeps keys distinct, and the key inserted then holds the value.
pub proof fn lemma_insert_here<V>(es: Seq<(Seq<char>, V)>, k: Seq<char>, v: V)
    requires
        unique_keys(es),
    ensures
        unique_keys(insert_entry(es, k, v)),
        has_key(insert_entry(es, k, v), k),
        insert_entry(es, k, v)[key_pos(insert_entry(es, k, v), k)] == (k, v),
{
    let ins = insert_entry(es, k, v);
    if has_key(es, k) {
        let q = key_pos(es, k);
        assert forall|i: int, j: int|
            0 <= i < ins.len() && 0 <= j < ins.len() && #[trigger] ins[i].0 == #[trigger] ins[j].0
                implies i == j by {
            assert(es[i].0 == ins[i].0 && es[j].0 == ins[j].0);
        }
        lemma_key_pos(ins, q);
    } else {
        lemma_unique_push(es, k, v);
        lemma_key_pos(ins, es.len() as int);
    }
}

/// Inserting any pair leaves a present key `k` in its place; its value
/// changes only where the inserted key is `k`.
pub proof fn lemma_insert_keeps<V>(es: Seq<(Seq<char>, V)>, k: Seq<char>, k2: Seq<char>, v: V)
    requires
        unique_keys(es),
        has_key(es, k),
    ensures
        has_key(insert_entry(es, k2, v), k),
        key_pos(insert_entry(es, k2, v), k) == key_pos(es, k),
        insert_entry(es, k2, v)[key_pos(es, k)].1 == (if k2 == k {
            v
        } else {
            es[key_pos(es, k)].1
        }),
{
    let ins2 = insert_entry(es, k2, v);
    let p = key_pos(es, k);
    lemma_key_pos(es, p);
    lemma_insert_here(es, k2, v);
    if has_key(es, k2) {
        let q = key_pos(es, k2);
        if k2 != k {
            assert(q != p);
        }
    }
    assert(ins2[p].0 == k);
    lemma_key_pos(ins2, p);
}

/// The keys after an insertion: the keys before and the key inserted.
pub proof fn lemma_insert_keys<V>(es: Seq<(Seq<char>, V)>, k: Seq<char>, k2: Seq<char>, v: V)
    ensures
        has_key(insert_entry(es, k2, v), k) <==> has_key(es, k) || k == k2,
{
    let ins = insert_entry(es, k2, v);
    if has_key(es, k2) {
        let q = key_pos(es, k2);
        if has_key(es, k) {
            let p = choose|i: int| 0 <= i < es.len() && #[trigger] es[i].0 == k;
            assert(ins[p].0 == k);
        }
        if k == k2 {
            assert(ins[q].0 == k);
        }
        if has_key(ins, k) {
            let p = choose|i: int| 0 <= i < ins.len() && #[trigger] ins[i].0 == k;
            if p != q {
                assert(es[p].0 == k);
            }
        }
    } else {
        if has_key(es, k) {
            let p = choose|i: int| 0 <= i < es.len() && #[trigger] es[i].0 == k;
            assert(ins[p].0 == k);
        }
        if k == k2 {
            assert(ins[es.len() as int].0 == k);
        }
        if has_key(ins, k) {
            let p = choose|i: int| 0 <= i < ins.len() && #[trigger] ins[i].0 == k;
            if p < es.len() {
                assert(es[p].0 == k);
            }
        }
    }
}

/// What a map of tools holds: each tool name with the view of its entry.
pub uninterp spec fn plugin_entries(m: IndexMap<String, ToolVersionPlugin>) -> Seq<
    (Seq<char>, (Seq<Seq<char>>, Seq<char>)),
>;

/// What a map from tool names to version lists holds.
pub uninterp spec fn version_lists(m: IndexMap<String, Vec<String>>) -> Seq<
    (Seq<char>, Seq<Seq<char>>),
>;

/// Relies on `IndexMap::new`: a new map is empty.
#[verifier::external_body]
pub(crate) fn new_plugin_map() -> (m: IndexMap<String, ToolVersionPlugin>)
    ensures
        plugin_entries(m) == Seq::<(Seq<char>, (Seq<Seq<char>>, Seq<char>))>::empty(),
{
    IndexMap::new()
}

/// Relies on `IndexMap::len`: the number of pairs.
#[verifier::external_body]
pub(crate) fn plugin_map_len(m: &IndexMap<String, ToolVersionPlugin>) -> (r: usize)
    ensures
        r == plugin_entries(*m).len(),
{
    m.len()
}

/// Relies on `IndexMap::get_index`: the pair at position `i`, if there is one.
#[verifier::external_body]
pub(crate) fn plugin_at(m: &IndexMap<String, ToolVersionPlugin>, i: usize) -> (found: Option<(&String, &ToolVersionPlugin)>)
    ensures
        i < plugin_entries(*m).len() ==> found is Some,
        found matches Some(p) ==> i < plugin_entries(*m).len() && p.0@ == plugin_entries(*m)[i as int].0 && p.1.view() == plugin_entries(*m)[i as int].1,
{
    m.get_index(i)
}

/// Relies on `IndexMap::insert`: an equal key keeps its place and its value is
/// replaced and handed back; a new key goes last. Keys stay distinct.
#[verifier::external_body]
pub(crate) fn plugin_map_insert(
    m: &mut IndexMap<String, ToolVersionPlugin>,
    k: String,
    v: ToolVersionPlugin,
) -> (r: Option<ToolVersionPlugin>)
    ensures
        plugin_entries(*final(m)) == insert_entry(plugin_entries(*old(m)), k@, v.view()),
        unique_keys(plugin_entries(*final(m))),
        match r {
            Some(o) => has_key(plugin_entries(*old(m)), k@) && o.view() == plugin_entries(
                *old(m),
            )[key_pos(plugin_entries(*old(m)), k@)].1,
            None => !has_key(plugin_entries(*old(m)), k@),
        },
{
    m.insert(k, v)
}

/// Relies on `IndexMap::shift_remove`: the pair with an equal key leaves and
/// the others keep their order.
#[verifier::external_body]
pub(crate) fn plugin_map_remove(m: &mut IndexMap<String, ToolVersionPlugin>, k: &String)
    ensures
        plugin_entries(*final(m)) == remove_key(plugin_entries(*old(m)), k@),
        unique_keys(plugin_entries(*final(m))),
{
    m.shift_remove(k);
}

/// Relies on `IndexMap::new`: a new map is empty.
#[verifier::external_body]
pub(crate) fn new_version_map() -> (m: IndexMap<String, Vec<String>>)
    ensures
        version_lists(m) == Seq::<(Seq<char>, Seq<Seq<char>>)>::empty(),
{
    IndexMap::new()
}

/// Relies on `IndexMap::insert`: an equal key keeps its place and takes the
/// new value; a new key goes last.
#[verifier::external_body]
pub(crate) fn version_map_insert(m: &mut IndexMap<String, Vec<String>>, k: String, v: Vec<String>)
    ensures
        version_lists(*final(m)) == insert_entry(version_lists(*old(m)), k@, views(v@)),
{
    m.insert(k, v);
}

} // verus!
