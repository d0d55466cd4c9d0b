//! The configured sites: each one's URL and the hints remembered about it.
use vstd::prelude::*;

use crate::site::SiteHints;
use crate::slots::{
    entries_well_keyed, hint_map_get, hint_map_insert, hint_map_new, hint_slots,
    is_live_key, key_index, key_version, url_entries, url_map_entries, url_map_get,
    url_map_insert, url_map_len, url_map_new, url_vacancies, HintSlots, UrlSlots,
};

verus! {

/// The handle of a configured site. Only a [`Config`] makes them.
#[derive(Debug, Clone, Copy, PartialEq, Eq, Structural, Hash)]
pub struct SiteKey {
    id: u64,
}

/// A site as the configuration file lists it.
#[derive(Debug, Clone)]
pub struct RawSite {
    pub url: String,
    pub hints: SiteHints,
}

impl View for RawSite {
    type V = (Seq<char>, SiteHints);

    open spec fn view(&self) -> (Seq<char>, SiteHints) {
        (self.url@, self.hints)
    }
}

/// A configured site as a contract sees it: its key, its URL, its hints.
pub type SiteView = (SiteKey, Seq<char>, SiteHints);

/// The sites of a list, as URL and hints.
pub open spec fn site_list(sites: Seq<RawSite>) -> Seq<(Seq<char>, SiteHints)> {
    sites.map_values(|site: RawSite| site@)
}

/// No two configured sites share a key.
pub open spec fn distinct_keys(sites: Seq<SiteView>) -> bool {
    forall|i: int, j: int|
        0 <= i < sites.len() && 0 <= j < sites.len() && i != j ==> (#[trigger] sites[i]).0 != (
        #[trigger] sites[j]).0
}

/// The configuration holds exactly the listed sites, in their order, each
/// under a key of its own.
pub open spec fn built_from(config: Seq<SiteView>, sites: Seq<(Seq<char>, SiteHints)>) -> bool {
    &&& distinct_keys(config)
    &&& config.len() == sites.len()
    &&& forall|i: int|
        0 <= i < config.len() ==> (#[trigger] config[i]).1 == sites[i].0 && config[i].2
            == sites[i].1
}

/// What a snapshot of the configuration lists: every site, in order, as URL
/// and hints.
pub open spec fn snapshot_of(config: Seq<SiteView>) -> Seq<(Seq<char>, SiteHints)> {
    config.map_values(|site: SiteView| (site.1, site.2))
}

/// The keys of the configured sites, in order.
pub open spec fn keys_of(config: Seq<SiteView>) -> Seq<SiteKey> {
    config.map_values(|site: SiteView| site.0)
}

/// Whether a key names one of the configured sites.
pub open spec fn has_key(config: Seq<SiteView>, key: SiteKey) -> bool {
    exists|i: int| 0 <= i < config.len() && (#[trigger] config[i]).0 == key
}

/// Where the site with the key stands in the configuration.
pub open spec fn position_of(config: Seq<SiteView>, key: SiteKey) -> int {
    choose|i: int| 0 <= i < config.len() && (#[trigger] config[i]).0 == key
}

/// The URL of the site with the key.
pub open spec fn url_of(config: Seq<SiteView>, key: SiteKey) -> Seq<char> {
    config[position_of(config, key)].1
}

/// The hints of the site with the key.
pub open spec fn hints_of(config: Seq<SiteView>, key: SiteKey) -> SiteHints {
    config[position_of(config, key)].2
}

/// The configuration after the hints of the site with the key are replaced.
pub open spec fn with_hints(config: Seq<SiteView>, key: SiteKey, hints: SiteHints) -> Seq<SiteView> {
    config.map_values(|site: SiteView| if site.0 == key { (site.0, site.1, hints) } else { site })
}

/// The configured sites. Each has a key, a URL and hints; the sites keep the
/// order in which they were listed.
pub struct Config {
    sites: UrlSlots,
    hints: HintSlots,
}

impl View for Config {
    type V = Seq<SiteView>;

    closed spec fn view(&self) -> Seq<SiteView> {
        url_entries(self.sites).map_values(
            |entry: (u64, Seq<char>)|
                (SiteKey { id: entry.0 }, entry.1, hint_slots(self.hints)[key_index(entry.0)].1),
        )
    }
}

impl Config {
    /// Every site has hints stored under its own key, and the hints map holds
    /// nothing else.
    #[verifier::type_invariant]
    closed spec fn wf(&self) -> bool {
        let entries = url_entries(self.sites);
        let slots = hint_slots(self.hints);
        &&& entries_well_keyed(entries)
        &&& entries.len() < u32::MAX
        &&& forall|i: int|
            0 <= i < entries.len() ==> slots.contains_key(key_index(#[trigger] entries[i].0))
                && slots[key_index(entries[i].0)].0 == key_version(entries[i].0)
        &&& forall|idx: int|
            #[trigger] slots.contains_key(idx) ==> exists|i: int|
                0 <= i < entries.len() && key_index(#[trigger] entries[i].0) == idx
    }

    proof fn lemma_wf_distinct(&self)
        requires
            self.wf(),
        ensures
            distinct_keys(self@),
    {
        let entries = url_entries(self.sites);
        assert forall|i: int, j: int|
            0 <= i < self@.len() && 0 <= j < self@.len() && i != j implies (#[trigger] self@[i]).0
            != (#[trigger] self@[j]).0 by {
            assert(key_index(entries[i].0) != key_index(entries[j].0));
        }
    }

    /// Builds the configuration from the listed sites, in their order.
    pub fn from_sites(sites: Vec<RawSite>) -> (config: Config)
        requires
            sites@.len() < u32::MAX,
        ensures
            built_from(config@, site_list(sites@)),
    {
        let mut slots = url_map_new();
        let mut hints = hint_map_new();
        let n = sites.len();
        for i in 0..n
            invariant
                n == sites@.len(),
                n < u32::MAX,
                url_vacancies(slots) == 0,
                url_entries(slots).len() == i,
                entries_well_keyed(url_entries(slots)),
                forall|j: int| 0 <= j < i ==> (#[trigger] url_entries(slots)[j]).1 == sites@[j].url@,
                forall|j: int|
                    0 <= j < i ==> hint_slots(hints).contains_key(
                        key_index(#[trigger] url_entries(slots)[j].0),
                    ) && hint_slots(hints)[key_index(url_entries(slots)[j].0)] == (
                        key_version(url_entries(slots)[j].0),
                        sites@[j].hints,
                    ),
                forall|idx: int|
                    #[trigger] hint_slots(hints).contains_key(idx) ==> exists|j: int|
                        0 <= j < i && key_index(#[trigger] url_entries(slots)[j].0) == idx,
        {
            let ghost old_entries = url_entries(slots);
            let ghost old_slots = hint_slots(hints);
            let url = sites[i].url.clone();
            let key = url_map_insert(&mut slots, url);
            let ghost idx = key_index(key);
            assert(!old_slots.contains_key(idx)) by {
                if old_slots.contains_key(idx) {
                    let j = choose|j: int|
                        0 <= j < i && key_index(#[trigger] old_entries[j].0) == idx;
                    assert(key_index(old_entries[j].0) != key_index(key));
                }
            }
            let _ = hint_map_insert(&mut hints, key, sites[i].hints);
            assert(url_entries(slots) == old_entries.push((key, sites@[i as int].url@)));
            assert forall|idx2: int| #[trigger]
                hint_slots(hints).contains_key(idx2) implies exists|j: int|
                0 <= j < i + 1 && key_index(#[trigger] url_entries(slots)[j].0) == idx2 by {
                if idx2 == idx {
                    assert(key_index(url_entries(slots)[i as int].0) == idx2);
                } else {
                    assert(old_slots.contains_key(idx2));
                    let j = choose|j: int|
                        0 <= j < i && key_index(#[trigger] old_entries[j].0) == idx2;
                    assert(url_entries(slots)[j] == old_entries[j]);
                }
            }
        }
        let config = Config { sites: slots, hints };
        proof {
            config.lemma_wf_distinct();
        }
        config
    }

    /// How many sites are configured.
    pub fn len(&self) -> (n: usize)
        ensures
            n == self@.len(),
    {
        url_map_len(&self.sites)
    }

    /// The keys of the configured sites, in order.
    pub fn keys(&self) -> (keys: Vec<SiteKey>)
        ensures
            keys@ == keys_of(self@),
            distinct_keys(self@),
    {
        proof {
            use_type_invariant(self);
        }
        proof {
            self.lemma_wf_distinct();
        }
        let entries = url_map_entries(&self.sites);
        let ghost view = entries@.map_values(|e: (u64, String)| (e.0, e.1@));
        let mut keys: Vec<SiteKey> = Vec::new();
        for i in 0..entries.len()
            invariant
                view == entries@.map_values(|e: (u64, String)| (e.0, e.1@)),
                view == url_entries(self.sites),
                keys@.len() == i,
                forall|j: int| 0 <= j < i ==> #[trigger] keys@[j] == self@[j].0,
        {
            assert(view[i as int].0 == entries@[i as int].0);
            keys.push(SiteKey { id: entries[i].0 });
        }
        assert(keys@ =~= keys_of(self@));
        keys
    }

    /// Whether the key names a configured site.
    pub fn contains_key(&self, key: SiteKey) -> (found: bool)
        ensures
            found == has_key(self@, key),
    {
        proof {
            use_type_invariant(self);
        }
        let entries = Ghost(url_entries(self.sites));
        if key.id / 0x1_0000_0000 % 2 == 0 {
            assert(!has_key(self@, key)) by {
                if has_key(self@, key) {
                    let i = choose|i: int| 0 <= i < self@.len() && (#[trigger] self@[i]).0 == key;
                    assert(is_live_key(entries@[i].0));
                }
            }
            false
        } else {
            let url = url_map_get(&self.sites, key.id);
            proof {
                if has_key(self@, key) {
                    let i = choose|i: int| 0 <= i < self@.len() && (#[trigger] self@[i]).0 == key;
                    assert(entries@[i].0 == key.id);
                }
                if url is Some {
                    let i = choose|i: int|
                        0 <= i < entries@.len() && (#[trigger] entries@[i]).0 == key.id;
                    assert(self@[i].0 == key);
                }
            }
            url.is_some()
        }
    }

    /// The URL of the site with the key.
    pub fn url(&self, key: SiteKey) -> (url: String)
        requires
            has_key(self@, key),
        ensures
            url@ == url_of(self@, key),
    {
        proof {
            use_type_invariant(self);
        }
        proof {
            self.lemma_wf_distinct();
        }
        let entries = Ghost(url_entries(self.sites));
        let ghost p = position_of(self@, key);
        assert(entries@[p].0 == key.id);
        assert(is_live_key(entries@[p].0));
        match url_map_get(&self.sites, key.id) {
            Some(url) => {
                proof {
                    let i = choose|i: int|
                        0 <= i < entries@.len() && (#[trigger] entries@[i]).0 == key.id
                            && entries@[i].1 == url@;
                    assert(self@[i].0 == key);
                }
                url
            },
            None => {
                proof {
                    assert(entries@[p].0 != key.id);
                }
                String::new()
            },
        }
    }

    /// The hints of the site with the key.
    pub fn hints(&self, key: SiteKey) -> (hints: SiteHints)
        requires
            has_key(self@, key),
        ensures
            hints == hints_of(self@, key),
    {
        proof {
            use_type_invariant(self);
        }
        let entries = Ghost(url_entries(self.sites));
        let ghost p = position_of(self@, key);
        assert(entries@[p].0 == key.id);
        assert(is_live_key(entries@[p].0));
        match hint_map_get(&self.hints, key.id) {
            Some(hints) => hints,
            None => {
                proof {
                    assert(hint_slots(self.hints).contains_key(key_index(entries@[p].0)));
                }
                SiteHints { scraper: None, stable_count: 0 }
            },
        }
    }

    /// Replaces the hints of the site with the key.
    pub fn set_hints(&mut self, key: SiteKey, hints: SiteHints)
        requires
            has_key(old(self)@, key),
        ensures
            final(self)@ == with_hints(old(self)@, key, hints),
            distinct_keys(final(self)@),
    {
        proof {
            use_type_invariant(&*self);
            self.lemma_wf_distinct();
        }
        let ghost entries = url_entries(self.sites);
        let ghost slots = hint_slots(self.hints);
        let ghost p = position_of(self@, key);
        assert(entries[p].0 == key.id);
        assert(is_live_key(entries[p].0));
        let mut taken = Config { sites: url_map_new(), hints: hint_map_new() };
        std::mem::swap(self, &mut taken);
        let Config { sites, hints: mut stored } = taken;
        let _ = hint_map_insert(&mut stored, key.id, hints);
        assert(hint_slots(stored) == slots.insert(key_index(key.id), (key_version(key.id), hints)));
        assert forall|idx: int| #[trigger]
            hint_slots(stored).contains_key(idx) implies exists|i: int|
            0 <= i < entries.len() && key_index(#[trigger] entries[i].0) == idx by {
            if idx != key_index(key.id) {
                assert(slots.contains_key(idx));
            } else {
                assert(key_index(entries[p].0) == idx);
            }
        }
        let updated = Config { sites, hints: stored };
        assert forall|i: int| 0 <= i < updated@.len() implies #[trigger] updated@[i] == with_hints(
            old(self)@,
            key,
            hints,
        )[i] by {
            if i != p {
                assert(key_index(entries[i].0) != key_index(entries[p].0));
            }
        }
        assert(updated@ =~= with_hints(old(self)@, key, hints));
        proof {
            updated.lemma_wf_distinct();
        }
        *self = updated;
    }

    /// Every configured site, in order, with its URL and hints.
    pub fn snapshot(&self) -> (sites: Vec<RawSite>)
        ensures
            site_list(sites@) == snapshot_of(self@),
            sites@.len() < u32::MAX,
    {
        proof {
            use_type_invariant(self);
        }
        let entries = url_map_entries(&self.sites);
        let ghost view = url_entries(self.sites);
        let mut sites: Vec<RawSite> = Vec::new();
        for i in 0..entries.len()
            invariant
                view == entries@.map_values(|e: (u64, String)| (e.0, e.1@)),
                view == url_entries(self.sites),
                self.wf(),
                sites@.len() == i,
                forall|j: int|
                    0 <= j < i ==> (#[trigger] sites@[j]).url@ == self@[j].1 && sites@[j].hints
                        == self@[j].2,
        {
            let key = entries[i].0;
            assert(view[i as int].0 == key);
            assert(is_live_key(view[i as int].0));
            let url = entries[i].1.clone();
            let hints = match hint_map_get(&self.hints, key) {
                Some(h) => h,
                None => {
                    proof {
                        assert(hint_slots(self.hints).contains_key(key_index(view[i as int].0)));
                    }
                    SiteHints { scraper: None, stable_count: 0 }
                },
            };
            sites.push(RawSite { url, hints });
        }
        assert(site_list(sites@) =~= snapshot_of(self@));
        sites
    }
}

/// A snapshot of a configuration built from a list of sites gives back
/// that list: the same URLs and hints, in the same order.
pub proof fn lemma_snapshot_returns_sites(config: Seq<SiteView>, sites: Seq<(Seq<char>, SiteHints)>)
    requires
        built_from(config, sites),
    ensures
        snapshot_of(config) == sites,
{
    assert(snapshot_of(config) =~= sites);
}

/// Each key that the configuration lists names the site at its place.
pub proof fn lemma_keys_name_their_sites(config: Seq<SiteView>, i: int)
    requires
        distinct_keys(config),
        0 <= i < config.len(),
    ensures
        has_key(config, keys_of(config)[i]),
        position_of(config, keys_of(config)[i]) == i,
        url_of(config, keys_of(config)[i]) == config[i].1,
        hints_of(config, keys_of(config)[i]) == config[i].2,
{
    assert(config[i].0 == keys_of(config)[i]);
}

/// Replacing the hints of a site: reading them back gives the new hints;
/// every other site keeps its hints; every site keeps its key, its URL and
/// its place; a snapshot changes only at that site.
pub proof fn lemma_set_then_get(config: Seq<SiteView>, key: SiteKey, hints: SiteHints)
    requires
        distinct_keys(config),
        has_key(config, key),
    ensures
        distinct_keys(with_hints(config, key, hints)),
        keys_of(with_hints(config, key, hints)) == keys_of(config),
        hints_of(with_hints(config, key, hints), key) == hints,
        forall|other: SiteKey|
            #![trigger hints_of(with_hints(config, key, hints), other)]
            has_key(config, other) && other != key ==> hints_of(with_hints(config, key, hints), other)
                == hints_of(config, other),
        forall|other: SiteKey|
            #![trigger url_of(with_hints(config, key, hints), other)]
            has_key(config, other) ==> url_of(with_hints(config, key, hints), other) == url_of(
                config,
                other,
            ),
        snapshot_of(with_hints(config, key, hints)) == snapshot_of(config).update(
            position_of(config, key),
            (url_of(config, key), hints),
        ),
{
    let updated = with_hints(config, key, hints);
    assert(keys_of(updated) =~= keys_of(config));
    let p = position_of(config, key);
    assert(updated[p].0 == key);
    assert forall|other: SiteKey| has_key(config, other) implies #[trigger] position_of(updated, other)
        == position_of(config, other) by {
        let q = position_of(config, other);
        assert(updated[q].0 == other);
    }
    assert(snapshot_of(updated) =~= snapshot_of(config).update(p, (url_of(config, key), hints)));
}

/// Building a configuration from the snapshot of another gives the same
/// sites, URLs and hints in the same order, and the same snapshot.
pub proof fn lemma_rebuild_from_snapshot(config: Seq<SiteView>, rebuilt: Seq<SiteView>)
    requires
        built_from(rebuilt, snapshot_of(config)),
    ensures
        rebuilt.len() == config.len(),
        forall|i: int|
            0 <= i < config.len() ==> (#[trigger] rebuilt[i]).1 == config[i].1 && rebuilt[i].2
                == config[i].2,
        snapshot_of(rebuilt) == snapshot_of(config),
{
    lemma_snapshot_returns_sites(rebuilt, snapshot_of(config));
}

} // verus!
