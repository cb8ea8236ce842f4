//! Concurrent maps of the `dashmap` crate, changed only through exclusive access.

use vstd::prelude::*;

verus! {

/// A `dashmap::DashMap`, carried without being looked into.
#[verifier::external_type_specification]
#[verifier::external_body]
#[verifier::reject_recursive_types(K)]
#[verifier::reject_recursive_types(V)]
#[verifier::reject_recursive_types(S)]
pub struct ExDashMap<K, V, S>(dashmap::DashMap<K, V, S>);

/// The entries of a map from texts to numbers.
pub uninterp spec fn handle_entries(m: dashmap::DashMap<String, usize>) -> Map<Seq<char>, usize>;

/// The entries of a map from texts to texts.
pub uninterp spec fn text_entries(m: dashmap::DashMap<String, String>) -> Map<Seq<char>, Seq<char>>;

/// A list of the keys of a map, in no particular order, with what each one holds.
pub open spec fn lists_handles(v: Seq<(String, usize)>, m: Map<Seq<char>, usize>) -> bool {
    &&& forall|i: int, j: int|
        0 <= i < v.len() && 0 <= j < v.len() && i != j ==> (#[trigger] v[i]).0@ != (
        #[trigger] v[j]).0@
    &&& forall|i: int|
        0 <= i < v.len() ==> m.contains_key((#[trigger] v[i]).0@) && m[v[i].0@] == v[i].1
    &&& forall|k: Seq<char>| #[trigger]
        m.contains_key(k) ==> exists|i: int| 0 <= i < v.len() && (#[trigger] v[i]).0@ == k
}

/// A list of the keys of a map, in no particular order, with what each one holds.
pub open spec fn lists_texts(v: Seq<(String, String)>, m: Map<Seq<char>, Seq<char>>) -> bool {
    &&& forall|i: int, j: int|
        0 <= i < v.len() && 0 <= j < v.len() && i != j ==> (#[trigger] v[i]).0@ != (
        #[trigger] v[j]).0@
    &&& forall|i: int|
        0 <= i < v.len() ==> m.contains_key((#[trigger] v[i]).0@) && m[v[i].0@] == v[i].1@
    &&& forall|k: Seq<char>| #[trigger]
        m.contains_key(k) ==> exists|i: int| 0 <= i < v.len() && (#[trigger] v[i]).0@ == k
}

/// `DashMap::new` makes a map without entries.
#[verifier::external_body]
pub(crate) fn new_handles() -> (r: dashmap::DashMap<String, usize>)
    ensures
        (handle_entries(r) == Map::<Seq<char>, usize>::empty()),
{
    dashmap::DashMap::new()
}

/// `DashMap::insert` stores a value under a key, in place of what the key held.
#[verifier::external_body]
pub(crate) fn insert_handle(m: &mut dashmap::DashMap<String, usize>, key: String, value: usize)
    ensures
        handle_entries(*final(m)) == handle_entries(*old(m)).insert(key@, value),
{
    m.insert(key, value);
}

/// `DashMap::get` finds what a key holds; the number is copied out.
#[verifier::external_body]
pub(crate) fn get_handle(m: &dashmap::DashMap<String, usize>, key: &str) -> (r: Option<usize>)
    ensures
        match r {
            Some(v) => handle_entries(*m).contains_key(key@) && v == handle_entries(*m)[key@],
            None => !handle_entries(*m).contains_key(key@),
        },
{
    m.get(key).map(|e| *e.value())
}

/// `DashMap::remove` takes a key and what it holds out of the map.
#[verifier::external_body]
pub(crate) fn remove_handle(m: &mut dashmap::DashMap<String, usize>, key: &str)
    ensures
        handle_entries(*final(m)) == handle_entries(*old(m)).remove(key@),
{
    m.remove(key);
}

/// `DashMap::iter` yields every entry once, in no particular order; the entries are copied out.
#[verifier::external_body]
pub(crate) fn list_handles(m: &dashmap::DashMap<String, usize>) -> (r: Vec<(String, usize)>)
    ensures
        lists_handles(r@, handle_entries(*m)),
{
    m.iter().map(|e| (e.key().clone(), *e.value())).collect()
}

/// `DashMap::new` makes a map without entries.
#[verifier::external_body]
pub(crate) fn new_texts() -> (r: dashmap::DashMap<String, String>)
    ensures
        (text_entries(r) == Map::<Seq<char>, Seq<char>>::empty()),
{
    dashmap::DashMap::new()
}

/// `DashMap::insert` stores a value under a key, in place of what the key held.
#[verifier::external_body]
pub(crate) fn insert_text(m: &mut dashmap::DashMap<String, String>, key: String, value: String)
    ensures
        text_entries(*final(m)) == text_entries(*old(m)).insert(key@, value@),
{
    m.insert(key, value);
}

/// `DashMap::get` finds what a key holds; the text is copied out.
#[verifier::external_body]
pub(crate) fn get_text(m: &dashmap::DashMap<String, String>, key: &str) -> (r: Option<String>)
    ensures
        match r {
            Some(v) => text_entries(*m).contains_key(key@) && v@ == text_entries(*m)[key@],
            None => !text_entries(*m).contains_key(key@),
        },
{
    m.get(key).map(|e| e.value().clone())
}

/// `DashMap::remove` takes a key and what it holds out of the map.
#[verifier::external_body]
pub(crate) fn remove_text(m: &mut dashmap::DashMap<String, String>, key: &str)
    ensures
        text_entries(*final(m)) == text_entries(*old(m)).remove(key@),
{
    m.remove(key);
}

/// `DashMap::iter` yields every entry once, in no particular order; the entries are copied out.
#[verifier::external_body]
pub(crate) fn list_texts(m: &dashmap::DashMap<String, String>) -> (r: Vec<(String, String)>)
    ensures
        lists_texts(r@, text_entries(*m)),
{
    m.iter().map(|e| (e.key().clone(), e.value().clone())).collect()
}

} // verus!
