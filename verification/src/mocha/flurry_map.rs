//! The two `flurry::HashMap`s of the expiring table.
//!
//! `flurry` is a concurrent map whose methods take `&self`. Every function here
//! that changes a map takes it by `&mut`, so nobody else reads or writes it
//! during the call, and what a map holds is a function of the map. Keys are byte
//! strings; two keys are the same key when their bytes are.

use vstd::prelude::*;

use crate::mocha::types::Entry;
use crate::mocha::types::Expiry;

verus! {

/// The type `flurry::HashMap`, taken as opaque.
#[verifier::external_type_specification]
#[verifier::external_body]
#[verifier::reject_recursive_types(K)]
#[verifier::reject_recursive_types(V)]
#[verifier::reject_recursive_types(S)]
pub struct ExFlurryHashMap<K, V, S>(flurry::HashMap<K, V, S>);

/// The hasher that `flurry::HashMap` uses by default, taken as opaque.
#[verifier::external_type_specification]
#[verifier::external_body]
pub struct ExDefaultHashBuilder(flurry::DefaultHashBuilder);

/// The main map: from key to entry.
pub type EntryMap = flurry::HashMap<Vec<u8>, Entry<Vec<u8>>>;

/// The expiry index: from key to expiry.
pub type ExpiryMap = flurry::HashMap<Vec<u8>, Expiry>;

/// What a main map holds.
pub type Entries = Map<Seq<u8>, Entry<Seq<u8>>>;

/// What an expiry index holds.
pub type Expiries = Map<Seq<u8>, Expiry>;

/// What the main map holds, by key.
pub uninterp spec fn entries_of(map: flurry::HashMap<Vec<u8>, Entry<Vec<u8>>>) -> Map<
    Seq<u8>,
    Entry<Seq<u8>>,
>;

/// What the expiry index holds, by key.
pub uninterp spec fn expiries_of(map: flurry::HashMap<Vec<u8>, Expiry>) -> Map<Seq<u8>, Expiry>;

/// `pairs` names every pair of `held` once, in some order.
pub open spec fn enumerates<K, V>(pairs: Seq<(K, V)>, held: Map<K, V>) -> bool {
    &&& forall|i: int|
        0 <= i < pairs.len() ==> held.contains_pair((#[trigger] pairs[i]).0, pairs[i].1)
    &&& forall|i: int, j: int|
        0 <= i < j < pairs.len() ==> (#[trigger] pairs[i]).0 != (#[trigger] pairs[j]).0
    &&& forall|key: K| #[trigger]
        held.contains_key(key) ==> exists|i: int|
            0 <= i < pairs.len() && (#[trigger] pairs[i]).0 == key
}

/// Pairs of the main map as plain values.
pub open spec fn entry_pairs(pairs: Seq<(Vec<u8>, Entry<Vec<u8>>)>) -> Seq<
    (Seq<u8>, Entry<Seq<u8>>),
> {
    pairs.map_values(|pair: (Vec<u8>, Entry<Vec<u8>>)| (pair.0@, pair.1@))
}

/// Pairs of the expiry index as plain values.
pub open spec fn expiry_pairs(pairs: Seq<(Vec<u8>, Expiry)>) -> Seq<(Seq<u8>, Expiry)> {
    pairs.map_values(|pair: (Vec<u8>, Expiry)| (pair.0@, pair.1))
}

/// Wraps `flurry::HashMap::new`: the new map is empty.
#[verifier::external_body]
pub(crate) fn entries_new() -> (map: EntryMap)
    ensures
        entries_of(map) == Entries::empty(),
{
    flurry::HashMap::new()
}

/// Wraps `flurry::HashMap::get`: a copy of the entry that the key maps to, or
/// `None` where there is none.
#[verifier::external_body]
pub(crate) fn entries_get(map: &EntryMap, key: &Vec<u8>) -> (found: Option<Entry<Vec<u8>>>)
    ensures
        match found {
            Some(entry) => entries_of(*map).contains_pair(key@, entry@),
            None => !entries_of(*map).contains_key(key@),
        },
{
    map.pin().get(key).cloned()
}

/// Wraps `flurry::HashMap::insert`: the key maps to the entry afterwards, every
/// other key as before; the result is the entry that was replaced.
#[verifier::external_body]
pub(crate) fn entries_insert(map: &mut EntryMap, key: Vec<u8>, entry: Entry<Vec<u8>>) -> (replaced:
    Option<Entry<Vec<u8>>>)
    ensures
        entries_of(*final(map)) == entries_of(*old(map)).insert(key@, entry@),
        match replaced {
            Some(old_entry) => entries_of(*old(map)).contains_pair(key@, old_entry@),
            None => !entries_of(*old(map)).contains_key(key@),
        },
{
    map.pin().insert(key, entry).cloned()
}

/// Wraps `flurry::HashMap::try_insert`: as `insert` where the key is absent;
/// where it is present the map stays as it is and the entry comes back.
#[verifier::external_body]
pub(crate) fn entries_try_insert(map: &mut EntryMap, key: Vec<u8>, entry: Entry<Vec<u8>>) -> (tried:
    Result<(), Entry<Vec<u8>>>)
    ensures
        entries_of(*old(map)).contains_key(key@) ==> {
            &&& tried == Err::<(), Entry<Vec<u8>>>(entry)
            &&& entries_of(*final(map)) == entries_of(*old(map))
        },
        !entries_of(*old(map)).contains_key(key@) ==> {
            &&& tried is Ok
            &&& entries_of(*final(map)) == entries_of(*old(map)).insert(key@, entry@)
        },
{
    match map.pin().try_insert(key, entry) {
        Ok(_) => Ok(()),
        Err(refused) => Err(refused.not_inserted),
    }
}

/// Wraps `flurry::HashMap::remove`: the key is absent afterwards, every other
/// key as before; the result is the entry that was removed.
#[verifier::external_body]
pub(crate) fn entries_remove(map: &mut EntryMap, key: &Vec<u8>) -> (removed: Option<Entry<Vec<u8>>>)
    ensures
        entries_of(*final(map)) == entries_of(*old(map)).remove(key@),
        match removed {
            Some(entry) => entries_of(*old(map)).contains_pair(key@, entry@),
            None => !entries_of(*old(map)).contains_key(key@),
        },
{
    map.pin().remove(key).cloned()
}

/// Wraps `flurry::HashMap::compute_if_present`: where the key is present, `remap`
/// is called once on its entry, and what it returns takes the entry's place, or
/// the key is removed where it returns `None`; where the key is absent, `remap`
/// is not called and the map stays as it is. The result says whether the key
/// holds an entry afterwards.
#[verifier::external_body]
pub(crate) fn entries_compute_if_present<F: FnOnce(&Entry<Vec<u8>>) -> Option<Entry<Vec<u8>>>>(
    map: &mut EntryMap,
    key: &Vec<u8>,
    remap: F,
) -> (kept: bool)
    requires
        forall|entry: Entry<Vec<u8>>|
            entries_of(*old(map)).contains_pair(key@, #[trigger] entry@) ==> remap.requires((&entry,)),
    ensures
        !entries_of(*old(map)).contains_key(key@) ==> {
            &&& !kept
            &&& entries_of(*final(map)) == entries_of(*old(map))
        },
        entries_of(*old(map)).contains_key(key@) ==> exists|
            entry: Entry<Vec<u8>>,
            remapped: Option<Entry<Vec<u8>>>,
        | #[trigger]
            remap.ensures((&entry,), remapped) && {
                &&& entries_of(*old(map))[key@] == entry@
                &&& kept == remapped is Some
                &&& entries_of(*final(map)) == match remapped {
                    Some(new_entry) => entries_of(*old(map)).insert(key@, new_entry@),
                    None => entries_of(*old(map)).remove(key@),
                }
            },
{
    map.pin().compute_if_present(key, |_, entry| remap(entry)).is_some()
}

/// Wraps `flurry::HashMap::len`: the number of keys that the map holds.
#[verifier::external_body]
pub(crate) fn entries_len(map: &EntryMap) -> (len: usize)
    ensures
        len == entries_of(*map).len(),
{
    map.len()
}

/// Wraps `flurry::HashMap::clear`: the map is empty afterwards.
#[verifier::external_body]
pub(crate) fn entries_clear(map: &mut EntryMap)
    ensures
        entries_of(*final(map)) == Entries::empty(),
{
    map.pin().clear()
}

/// Wraps `flurry::HashMap::iter`: copies of all pairs, each once. The order is
/// that of the walk and is left open.
#[verifier::external_body]
pub(crate) fn entries_iter(map: &EntryMap) -> (listed: Vec<(Vec<u8>, Entry<Vec<u8>>)>)
    ensures
        enumerates(entry_pairs(listed@), entries_of(*map)),
{
    map.pin().iter().map(|(key, entry)| (key.clone(), entry.clone())).collect()
}

/// Wraps `flurry::HashMap::new`: the new index is empty.
#[verifier::external_body]
pub(crate) fn expiries_new() -> (map: ExpiryMap)
    ensures
        expiries_of(map) == Expiries::empty(),
{
    flurry::HashMap::new()
}

/// Wraps `flurry::HashMap::try_insert`: where the key is absent, it maps to the
/// expiry afterwards, every other key as before; where it is present the index
/// stays as it is.
#[verifier::external_body]
pub(crate) fn expiries_try_insert(map: &mut ExpiryMap, key: Vec<u8>, expiry: Expiry) -> (inserted:
    bool)
    ensures
        inserted == !expiries_of(*old(map)).contains_key(key@),
        expiries_of(*final(map)) == if inserted {
            expiries_of(*old(map)).insert(key@, expiry)
        } else {
            expiries_of(*old(map))
        },
{
    map.pin().try_insert(key, expiry).is_ok()
}

/// Wraps `flurry::HashMap::compute_if_present`: where the key is present, `remap`
/// is called once on its expiry, and what it returns takes the expiry's place, or
/// the key is removed where it returns `None`; where the key is absent, `remap`
/// is not called and the index stays as it is. The result is the expiry that the
/// key holds afterwards.
#[verifier::external_body]
pub(crate) fn expiries_compute_if_present<F: FnOnce(&Expiry) -> Option<Expiry>>(
    map: &mut ExpiryMap,
    key: &Vec<u8>,
    remap: F,
) -> (kept: Option<Expiry>)
    requires
        expiries_of(*old(map)).contains_key(key@) ==> remap.requires(
            (&expiries_of(*old(map))[key@],),
        ),
    ensures
        !expiries_of(*old(map)).contains_key(key@) ==> {
            &&& kept is None
            &&& expiries_of(*final(map)) == expiries_of(*old(map))
        },
        expiries_of(*old(map)).contains_key(key@) ==> {
            &&& remap.ensures((&expiries_of(*old(map))[key@],), kept)
            &&& expiries_of(*final(map)) == match kept {
                Some(expiry) => expiries_of(*old(map)).insert(key@, expiry),
                None => expiries_of(*old(map)).remove(key@),
            }
        },
{
    map.pin().compute_if_present(key, |_, current| remap(current)).copied()
}

/// Wraps `flurry::HashMap::len`: the number of keys that the index holds.
#[verifier::external_body]
pub(crate) fn expiries_len(map: &ExpiryMap) -> (len: usize)
    ensures
        len == expiries_of(*map).len(),
{
    map.len()
}

/// Wraps `flurry::HashMap::clear`: the index is empty afterwards.
#[verifier::external_body]
pub(crate) fn expiries_clear(map: &mut ExpiryMap)
    ensures
        expiries_of(*final(map)) == Expiries::empty(),
{
    map.pin().clear()
}

/// Wraps `flurry::HashMap::iter`: copies of all pairs, each once. The order is
/// that of the walk and is left open.
#[verifier::external_body]
pub(crate) fn expiries_iter(map: &ExpiryMap) -> (listed: Vec<(Vec<u8>, Expiry)>)
    ensures
        enumerates(expiry_pairs(listed@), expiries_of(*map)),
{
    map.pin().iter().map(|(key, expiry)| (key.clone(), *expiry)).collect()
}

} // verus!
