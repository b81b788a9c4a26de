//! The ordered map that holds the credentials, and its mathematical model.

use vstd::prelude::*;
use indexmap::IndexMap;

verus! {

/// `IndexMap` of the `indexmap` crate: a hash map that keeps its entries in
/// the order in which their keys were first inserted.
#[verifier::external_type_specification]
#[verifier::external_body]
#[verifier::reject_recursive_types(K)]
#[verifier::reject_recursive_types(V)]
#[verifier::reject_recursive_types(S)]
pub struct ExIndexMap<K, V, S>(IndexMap<K, V, S>);

/// The entries of the map in its order, each as the characters of its key
/// and of its value.
pub uninterp spec fn entries_of(m: IndexMap<String, String>) -> Seq<(Seq<char>, Seq<char>)>;

/// The user names of the entries, in order.
pub open spec fn names(entries: Seq<(Seq<char>, Seq<char>)>) -> Seq<Seq<char>> {
    Seq::new(entries.len(), |i: int| entries[i].0)
}

/// The entries after `name` was given the hash `hash`: an entry of that
/// name keeps its place and gets the hash, a new name goes to the end.
pub open spec fn upsert(entries: Seq<(Seq<char>, Seq<char>)>, name: Seq<char>, hash: Seq<char>)
    -> Seq<(Seq<char>, Seq<char>)> {
    if names(entries).contains(name) {
        entries.update(names(entries).index_of(name), (name, hash))
    } else {
        entries.push((name, hash))
    }
}

/// The hash stored for `name`, if any.
pub open spec fn lookup(entries: Seq<(Seq<char>, Seq<char>)>, name: Seq<char>) -> Option<
    Seq<char>,
> {
    if names(entries).contains(name) {
        Some(entries[names(entries).index_of(name)].1)
    } else {
        None
    }
}

/// Some entry holds `hash` under `name`.
pub open spec fn holds(entries: Seq<(Seq<char>, Seq<char>)>, name: Seq<char>, hash: Seq<char>)
    -> bool {
    exists|i: int| 0 <= i < entries.len() && #[trigger] entries[i] == (name, hash)
}

/// `IndexMap::new`: a map without entries.
#[verifier::external_body]
pub(crate) fn empty_map() -> (m: IndexMap<String, String>)
    ensures
        entries_of(m) == Seq::<(Seq<char>, Seq<char>)>::empty(),
{
    IndexMap::new()
}

/// `IndexMap::clone`: a map with the same entries in the same order.
#[verifier::external_body]
pub(crate) fn clone_map(m: &IndexMap<String, String>) -> (copy: IndexMap<String, String>)
    ensures
        entries_of(copy) == entries_of(*m),
{
    m.clone()
}

/// `IndexMap::len`: the number of entries.
#[verifier::external_body]
pub(crate) fn entry_count(m: &IndexMap<String, String>) -> (n: usize)
    ensures
        n == entries_of(*m).len(),
{
    m.len()
}

/// `IndexMap::get_index`: the key and the value at a place in the order,
/// and nothing from the length on.
#[verifier::external_body]
pub(crate) fn entry_at(m: &IndexMap<String, String>, i: usize) -> (r: Option<(&String, &String)>)
    ensures
        i >= entries_of(*m).len() ==> r is None,
        i < entries_of(*m).len() ==> r is Some && (r.unwrap().0@, r.unwrap().1@) == entries_of(
            *m,
        )[i as int],
{
    m.get_index(i)
}

/// `IndexMap::get`: the value of an entry whose key equals `name`, and
/// nothing where no key does.
#[verifier::external_body]
pub(crate) fn find_hash<'a>(m: &'a IndexMap<String, String>, name: &str) -> (found: Option<&'a String>)
    ensures
        !names(entries_of(*m)).contains(name@) ==> found is None,
        names(entries_of(*m)).contains(name@) ==> found is Some && holds(
            entries_of(*m),
            name@,
            found.unwrap()@,
        ),
{
    m.get(name)
}

/// `IndexMap::insert`: where a key equals `name`, that entry keeps its key
/// and its place and gets the new value, and the old value is returned;
/// otherwise the pair becomes the last entry and nothing is returned.
#[verifier::external_body]
pub(crate) fn insert_entry(m: &mut IndexMap<String, String>, name: String, hash: String) -> (prev: Option<String>)
    ensures
        !names(entries_of(*old(m))).contains(name@) ==> prev is None && entries_of(*final(m))
            == entries_of(*old(m)).push((name@, hash@)),
        names(entries_of(*old(m))).contains(name@) ==> prev is Some && exists|i: int|
            0 <= i < entries_of(*old(m)).len() && #[trigger] entries_of(*old(m))[i] == (
                name@,
                prev.unwrap()@,
            ) && entries_of(*final(m)) == entries_of(*old(m)).update(i, (name@, hash@)),
{
    m.insert(name, hash)
}

/// Where no name occurs twice, the place of a name is the only place that
/// holds it.
pub proof fn lemma_unique_place(entries: Seq<(Seq<char>, Seq<char>)>, name: Seq<char>, i: int)
    requires
        names(entries).no_duplicates(),
        0 <= i < entries.len(),
        entries[i].0 == name,
    ensures
        names(entries).contains(name),
        names(entries).index_of(name) == i,
        lookup(entries, name) == Some(entries[i].1),
        upsert(entries, name, entries[i].1) == entries,
{
    let ns = names(entries);
    assert(ns[i] == name);
    let j = ns.index_of(name);
    assert(0 <= j < ns.len() && ns[j] == name);
    assert(entries.update(i, (name, entries[i].1)) =~= entries);
}

/// Setting a name keeps the names distinct, keeps every other entry, and
/// makes the given hash the one that is looked up under that name. An
/// existing name keeps its place and the table its length; a new name adds
/// one entry at the end.
pub proof fn lemma_upsert(entries: Seq<(Seq<char>, Seq<char>)>, name: Seq<char>, hash: Seq<char>)
    requires
        names(entries).no_duplicates(),
    ensures
        names(upsert(entries, name, hash)).no_duplicates(),
        lookup(upsert(entries, name, hash), name) == Some(hash),
        names(entries).contains(name) ==> names(upsert(entries, name, hash)) == names(entries),
        !names(entries).contains(name) ==> names(upsert(entries, name, hash)) == names(
            entries,
        ).push(name),
        forall|other: Seq<char>|
            other != name ==> lookup(upsert(entries, name, hash), other) == lookup(entries, other),
{
    let after = upsert(entries, name, hash);
    let ns = names(entries);
    if ns.contains(name) {
        let k = ns.index_of(name);
        assert(0 <= k < ns.len() && ns[k] == name);
        assert(names(after) =~= ns);
        lemma_unique_place(after, name, k);
        assert forall|other: Seq<char>| other != name implies lookup(after, other) == lookup(
            entries,
            other,
        ) by {
            if ns.contains(other) {
                let j = ns.index_of(other);
                assert(0 <= j < ns.len() && ns[j] == other);
                assert(after[j] == entries[j]);
            }
        }
    } else {
        assert(names(after) =~= ns.push(name));
        assert forall|a: int, b: int|
            0 <= a < names(after).len() && 0 <= b < names(after).len() && a != b implies names(
            after,
        )[a] != names(after)[b] by {
            if a == ns.len() {
                assert(ns[b] != name);
            } else if b == ns.len() {
                assert(ns[a] != name);
            }
        }
        lemma_unique_place(after, name, ns.len() as int);
        assert forall|other: Seq<char>| other != name implies lookup(after, other) == lookup(
            entries,
            other,
        ) by {
            if ns.contains(other) {
                let j = ns.index_of(other);
                assert(0 <= j < ns.len() && ns[j] == other);
                assert(names(after)[j] == other);
                lemma_unique_place(after, other, j);
            } else if names(after).contains(other) {
                let j = names(after).index_of(other);
                assert(0 <= j < names(after).len() && names(after)[j] == other);
                assert(ns[j] == other);
            }
        }
    }
}

} // verus!
