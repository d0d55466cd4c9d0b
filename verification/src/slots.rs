//! The slot maps that hold the configured sites, as Verus sees them.
//!
//! Nothing in this file is proved: each item states what the `slotmap`
//! crate source shows of the function it calls, and Verus believes it.
//! A key is handed across as the 64-bit number that `KeyData::as_ffi`
//! makes of it: the version of the key in the high half, its slot index in the
//! low half.
use vstd::prelude::*;

use slotmap::{DefaultKey, Key, KeyData, SecondaryMap, SlotMap};

use crate::site::SiteHints;

verus! {

/// The slot map of site URLs. `slotmap::Key`, the bound of its key
/// parameter, is a trait that Verus cannot be told of, so the map is kept in
/// a struct that Verus does not look into.
#[verifier::external_body]
pub struct UrlSlots {
    map: SlotMap<DefaultKey, String>,
}

/// The secondary map of site hints, kept for the same reason.
#[verifier::external_body]
pub struct HintSlots {
    map: SecondaryMap<DefaultKey, SiteHints>,
}

/// The slot index that a key names.
pub open spec fn key_index(key: u64) -> int {
    key as int % 0x1_0000_0000
}

/// The version that a key carries.
pub open spec fn key_version(key: u64) -> int {
    key as int / 0x1_0000_0000
}

/// A key as a slot map hands it out: its version is odd (occupied) and it
/// does not name the null slot.
pub open spec fn is_live_key(key: u64) -> bool {
    &&& key_version(key) % 2 == 1
    &&& key_index(key) != 0xffff_ffff
}

/// No two entries of a slot map share a slot, and every key is live.
pub open spec fn entries_well_keyed(entries: Seq<(u64, Seq<char>)>) -> bool {
    &&& forall|i: int| 0 <= i < entries.len() ==> is_live_key(#[trigger] entries[i].0)
    &&& forall|i: int, j: int|
        0 <= i < entries.len() && 0 <= j < entries.len() && i != j ==> key_index(
            #[trigger] entries[i].0,
        ) != key_index(#[trigger] entries[j].0)
}

/// The occupied slots of a slot map of URLs, in slot order (the order in
/// which `SlotMap::iter` hands them out): the key and URL of each.
pub uninterp spec fn url_entries(map: UrlSlots) -> Seq<(u64, Seq<char>)>;

/// How many freed slots a slot map of URLs keeps on its free list for reuse.
pub uninterp spec fn url_vacancies(map: UrlSlots) -> nat;

/// The occupied slots of a secondary map of hints: for each slot index, the
/// version of the key stored there and its hints.
pub uninterp spec fn hint_slots(map: HintSlots) -> Map<int, (int, SiteHints)>;

/// Whether version `a` is older than version `b`, counted with wrap-around
/// as `is_older_version` of `slotmap` counts it.
pub open spec fn is_older_version(a: int, b: int) -> bool {
    (a - b) % 0x1_0000_0000 >= 0x8000_0000
}

/// `SlotMap::new`: an empty slot map, with no freed slots.
#[verifier::external_body]
pub(crate) fn url_map_new() -> (map: UrlSlots)
    ensures
        url_entries(map) == Seq::<(u64, Seq<char>)>::empty(),
        url_vacancies(map) == 0,
{
    UrlSlots { map: SlotMap::new() }
}

/// `SlotMap::insert`: stores the URL in a freed slot if there is one (the
/// one at the head of the free list), else in a new slot after all others,
/// and returns the key of that slot. It panics only when the map already has
/// `u32::MAX` slots, which `requires` rules out.
#[verifier::external_body]
pub(crate) fn url_map_insert(map: &mut UrlSlots, url: String) -> (key: u64)
    requires
        url_entries(*old(map)).len() + 2 <= u32::MAX,
    ensures
        is_live_key(key),
        forall|i: int|
            0 <= i < url_entries(*old(map)).len() ==> key_index(#[trigger] url_entries(
                *old(map),
            )[i].0) != key_index(key),
        exists|pos: int|
            0 <= pos <= url_entries(*old(map)).len() && url_entries(*final(map)) == url_entries(
                *old(map),
            ).insert(pos, (key, url@)),
        url_vacancies(*old(map)) == 0 ==> url_entries(*final(map)) == url_entries(*old(map)).push(
            (key, url@),
        ) && url_vacancies(*final(map)) == 0,
        url_vacancies(*old(map)) > 0 ==> url_vacancies(*final(map)) == url_vacancies(*old(map))
            - 1,
        entries_well_keyed(url_entries(*final(map))),
{
    map.map.insert(url).data().as_ffi()
}

/// `SlotMap::iter`: the key of every occupied slot and a copy of its URL, in
/// slot order.
#[verifier::external_body]
pub(crate) fn url_map_entries(map: &UrlSlots) -> (entries: Vec<(u64, String)>)
    ensures
        entries@.map_values(|e: (u64, String)| (e.0, e.1@)) == url_entries(*map),
        entries_well_keyed(entries@.map_values(|e: (u64, String)| (e.0, e.1@))),
{
    map.map.iter().map(|(key, url)| (key.data().as_ffi(), url.clone())).collect()
}

/// `SlotMap::len`: how many slots are occupied.
#[verifier::external_body]
pub(crate) fn url_map_len(map: &UrlSlots) -> (len: usize)
    ensures
        len == url_entries(*map).len(),
{
    map.map.len()
}

/// `SlotMap::get`: the URL stored under the key, if the slot of the key holds
/// that very version.
#[verifier::external_body]
pub(crate) fn url_map_get(map: &UrlSlots, key: u64) -> (url: Option<String>)
    requires
        key_version(key) % 2 == 1,
    ensures
        match url {
            Some(u) => exists|i: int|
                0 <= i < url_entries(*map).len() && (#[trigger] url_entries(*map)[i]).0 == key
                    && url_entries(*map)[i].1 == u@,
            None => forall|i: int|
                0 <= i < url_entries(*map).len() ==> (#[trigger] url_entries(*map)[i]).0 != key,
        },
{
    let key: DefaultKey = KeyData::from_ffi(key).into();
    map.map.get(key).cloned()
}

/// The hints that a secondary map holds for a key: those of the slot index
/// of the key, if that slot holds the version of the key.
pub open spec fn hint_lookup(slots: Map<int, (int, SiteHints)>, key: u64) -> Option<SiteHints> {
    if slots.contains_key(key_index(key)) && slots[key_index(key)].0 == key_version(key) {
        Some(slots[key_index(key)].1)
    } else {
        None
    }
}

/// `SecondaryMap::new`: an empty secondary map.
#[verifier::external_body]
pub(crate) fn hint_map_new() -> (map: HintSlots)
    ensures
        hint_slots(map).dom() == Set::<int>::empty(),
{
    HintSlots { map: SecondaryMap::new() }
}

/// `SecondaryMap::insert`: ignores the null key; replaces the hints of the
/// same key and returns the old ones; keeps a newer version that occupies
/// the slot; otherwise stores the hints under the slot of the key.
#[verifier::external_body]
pub(crate) fn hint_map_insert(
    map: &mut HintSlots,
    key: u64,
    hints: SiteHints,
) -> (previous: Option<SiteHints>)
    requires
        key_version(key) % 2 == 1,
    ensures
        ({
            let slots = hint_slots(*old(map));
            let idx = key_index(key);
            let version = key_version(key);
            if idx == 0xffff_ffff {
                &&& hint_slots(*final(map)) == slots
                &&& previous is None
            } else if slots.contains_key(idx) && slots[idx].0 == version {
                &&& hint_slots(*final(map)) == slots.insert(idx, (version, hints))
                &&& previous == Some(slots[idx].1)
            } else if slots.contains_key(idx) && is_older_version(version, slots[idx].0) {
                &&& hint_slots(*final(map)) == slots
                &&& previous is None
            } else {
                &&& hint_slots(*final(map)) == slots.insert(idx, (version, hints))
                &&& previous is None
            }
        }),
{
    let key: DefaultKey = KeyData::from_ffi(key).into();
    map.map.insert(key, hints)
}

/// `SecondaryMap::get`: the hints stored under the key, if its slot holds
/// that very version.
#[verifier::external_body]
pub(crate) fn hint_map_get(map: &HintSlots, key: u64) -> (found: Option<SiteHints>)
    requires
        key_version(key) % 2 == 1,
    ensures
        found == hint_lookup(hint_slots(*map), key),
{
    let key: DefaultKey = KeyData::from_ffi(key).into();
    map.map.get(key).copied()
}

} // verus!
