use vstd::prelude::*;
use ahash::AHashMap;
use ahash::AHashSet;
use crate::chunk_column::ChunkColumn;

verus! {

/// `ahash::AHashMap`, a hash map; nothing is known of what is inside it but through
/// the functions below.
#[verifier::external_type_specification]
#[verifier::external_body]
#[verifier::reject_recursive_types(K)]
#[verifier::reject_recursive_types(V)]
#[verifier::reject_recursive_types(S)]
pub struct ExAHashMap<K, V, S>(AHashMap<K, V, S>);

/// `ahash::AHashSet`, a hash set; nothing is known of what is inside it but through
/// the functions below.
#[verifier::external_type_specification]
#[verifier::external_body]
#[verifier::reject_recursive_types(T)]
#[verifier::reject_recursive_types(S)]
pub struct ExAHashSet<T, S>(AHashSet<T, S>);

/// `ahash::RandomState`, the hasher that both collections are built with.
#[verifier::external_type_specification]
#[verifier::external_body]
pub struct ExRandomState(ahash::RandomState);

/// The key of a column: its x and z coordinates.
pub type ChunkKey = (i64, i64);

/// The key of a section: the x and z coordinates of its column and its height in it.
pub type SectionKey = (i64, i64, usize);

/// The columns of a store, by their coordinates.
pub type ChunksType = AHashMap<ChunkKey, ChunkColumn>;

/// The sections that wait for new geometry.
pub type UpdateSet = AHashSet<SectionKey>;

/// The columns that a table holds, by key.
pub uninterp spec fn column_entries(m: ChunksType) -> Map<ChunkKey, ChunkColumn>;

/// The sections that a set holds.
pub uninterp spec fn update_entries(s: UpdateSet) -> Set<SectionKey>;

/// The table without columns.
pub open spec fn no_columns() -> Map<ChunkKey, ChunkColumn> {
    Map::empty()
}

/// The set without sections.
pub open spec fn no_sections() -> Set<SectionKey> {
    Set::empty()
}

/// Calls `AHashMap::new`, which makes a map without entries.
#[verifier::external_body]
pub(crate) fn chunks_new() -> (m: ChunksType)
    ensures
        column_entries(m) == no_columns(),
{
    AHashMap::new()
}

/// Calls `AHashMap::get`, which forwards to `HashMap::get`: a reference to the value
/// stored under the key, or `None` where the map has no such key.
#[verifier::external_body]
pub(crate) fn chunks_get<'a>(m: &'a ChunksType, k: ChunkKey) -> (r: Option<&'a ChunkColumn>)
    ensures
        match r {
            Some(c) => column_entries(*m).contains_key(k) && *c == column_entries(*m)[k],
            None => !column_entries(*m).contains_key(k),
        },
{
    m.get(&k)
}

/// Calls `AHashMap::get_mut`, which forwards to `HashMap::get_mut`: a mutable reference
/// to the value stored under the key, or `None` where the map has no such key. What
/// is written through the reference is what the map then holds under that key; no
/// other entry changes.
#[verifier::external_body]
pub(crate) fn chunks_get_mut<'a>(m: &'a mut ChunksType, k: ChunkKey) -> (r: Option<&'a mut ChunkColumn>)
    ensures
        match r {
            Some(c) => column_entries(*old(m)).contains_key(k) && *c == column_entries(*old(m))[k]
                && column_entries(*final(m)) == column_entries(*old(m)).insert(k, *final(c)),
            None => !column_entries(*old(m)).contains_key(k) && column_entries(*final(m))
                == column_entries(*old(m)),
        },
{
    m.get_mut(&k)
}

/// Calls `AHashMap::insert`, which forwards to `HashMap::insert`: the value is stored
/// under the key, and the value that the key had before is returned.
#[verifier::external_body]
pub(crate) fn chunks_insert(m: &mut ChunksType, k: ChunkKey, v: ChunkColumn) -> (r: Option<ChunkColumn>)
    ensures
        column_entries(*final(m)) == column_entries(*old(m)).insert(k, v),
        match r {
            Some(c) => column_entries(*old(m)).contains_key(k) && c == column_entries(*old(m))[k],
            None => !column_entries(*old(m)).contains_key(k),
        },
{
    m.insert(k, v)
}

/// Calls `AHashMap::remove`, which forwards to `HashMap::remove`: the key leaves the
/// map, and the value that it had is returned.
#[verifier::external_body]
pub(crate) fn chunks_remove(m: &mut ChunksType, k: ChunkKey) -> (r: Option<ChunkColumn>)
    ensures
        column_entries(*final(m)) == column_entries(*old(m)).remove(k),
        match r {
            Some(c) => column_entries(*old(m)).contains_key(k) && c == column_entries(*old(m))[k],
            None => !column_entries(*old(m)).contains_key(k),
        },
{
    m.remove(&k)
}

/// Walks `HashMap::keys` of the map behind the `AHashMap` and copies each key. Every
/// key of the map comes once; nothing is said of their order.
#[verifier::external_body]
pub(crate) fn chunks_keys(m: &ChunksType) -> (keys: Vec<ChunkKey>)
    ensures
        keys@.no_duplicates(),
        keys@.to_set() == column_entries(*m).dom(),
{
    m.keys().copied().collect()
}

/// Calls `AHashSet::new`, which makes a set without items.
#[verifier::external_body]
pub(crate) fn updates_new() -> (s: UpdateSet)
    ensures
        update_entries(s) == no_sections(),
{
    AHashSet::new()
}

/// Calls `HashSet::insert` on the set behind the `AHashSet`: the item is in the set
/// afterwards, and the result says whether it was new.
#[verifier::external_body]
pub(crate) fn updates_insert(s: &mut UpdateSet, item: SectionKey) -> (fresh: bool)
    ensures
        update_entries(*final(s)) == update_entries(*old(s)).insert(item),
        fresh == !update_entries(*old(s)).contains(item),
{
    s.insert(item)
}

/// Calls `HashSet::remove` on the set behind the `AHashSet`: the item is not in the set
/// afterwards, and the result says whether it was there.
#[verifier::external_body]
pub(crate) fn updates_remove(s: &mut UpdateSet, item: SectionKey) -> (present: bool)
    ensures
        update_entries(*final(s)) == update_entries(*old(s)).remove(item),
        present == update_entries(*old(s)).contains(item),
{
    s.remove(&item)
}

/// Walks `HashSet::iter` of the set behind the `AHashSet` and copies each item. Every
/// item of the set comes once; nothing is said of their order.
#[verifier::external_body]
pub(crate) fn updates_items(s: &UpdateSet) -> (items: Vec<SectionKey>)
    ensures
        items@.no_duplicates(),
        items@.to_set() == update_entries(*s),
{
    s.iter().copied().collect()
}

} // verus!
