//! The per-identity cache protocol.
//!
//! A lookup answers an id-scoped query from the identity's cache where it
//! can, resolves the remaining ids against the last persisted whole-registry
//! snapshot (never against the network, so the remote source cannot observe
//! which ids were asked for), registers ids the snapshot could not resolve
//! in a negative cache, and folds what it did resolve back into the cache.
//! Cached entries are only ever added or superseded, never dropped.

use vstd::prelude::*;
use crate::ids::{
    AssetId, IdSet, ids_of, id_set, lemma_id_set_contains, lemma_ids_of_push, lemma_ids_of_append,
};
use crate::entries::{AssetEntryV, IconEntryV};
use crate::entry_map::EntryMap;
use crate::refresh::{AssetMap, IconMap, SnapshotStore, RegistryResult, split_by_assets};

verus! {

broadcast use lemma_id_set_contains, lemma_ids_of_push, lemma_ids_of_append;

/// What one identity's cache file holds: previously resolved entries plus a
/// negative cache of ids known to be unresolved.
#[derive(Debug, Clone)]
pub struct IdentityCache {
    /// Resolved asset metadata by id.
    pub assets: AssetMap,
    /// Resolved icons by id.
    pub icons: IconMap,
    /// Ids a previous lookup could not resolve from the snapshot.
    pub missing_assets: IdSet,
}

impl IdentityCache {
    /// Both cached mappings are well formed.
    pub open spec fn wf(&self) -> bool {
        self.assets.wf() && self.icons.wf()
    }

    /// The empty cache: what a first lookup for an identity starts from.
    pub fn new() -> (r: IdentityCache)
        ensures
            r.wf(),
            r.assets@ == Map::<Seq<u8>, AssetEntryV>::empty(),
            r.icons@ == Map::<Seq<u8>, IconEntryV>::empty(),
            r.missing_assets@ == Set::<Seq<u8>>::empty(),
    {
        IdentityCache {
            assets: EntryMap::new(),
            icons: EntryMap::new(),
            missing_assets: IdSet::new(),
        }
    }

    /// Splits `ids` into those with a cached asset entry and those without,
    /// preserving order.
    pub fn split_present(&self, ids: &Vec<AssetId>) -> (r: (Vec<AssetId>, Vec<AssetId>))
        ensures
            forall|k: Seq<u8>| #[trigger]
                ids_of(r.0@).contains(k) <==> ids_of(ids@).contains(k)
                    && self.assets@.contains_key(k),
            forall|k: Seq<u8>| #[trigger]
                ids_of(r.1@).contains(k) <==> ids_of(ids@).contains(k)
                    && !self.assets@.contains_key(k),
    {
        split_by_assets(&self.assets, ids)
    }

    /// Adds ids to the negative cache; it only ever grows.
    pub fn register_missing(&mut self, ids: &Vec<AssetId>)
        ensures
            final(self).missing_assets@ == old(self).missing_assets@ + id_set(ids@),
            final(self).assets == old(self).assets,
            final(self).icons == old(self).icons,
    {
        self.missing_assets.insert_all(ids);
    }

    /// Adds resolved asset entries; a new entry supersedes a cached one with
    /// the same id, and nothing is removed.
    pub fn extend_assets(&mut self, m: AssetMap)
        requires
            old(self).wf(),
        ensures
            final(self).wf(),
            final(self).assets@ == old(self).assets@.union_prefer_right(m@),
            final(self).icons == old(self).icons,
            final(self).missing_assets == old(self).missing_assets,
    {
        self.assets.extend(m);
    }

    /// Adds resolved icons; a new icon supersedes a cached one with the same
    /// id, and nothing is removed.
    pub fn extend_icons(&mut self, m: IconMap)
        requires
            old(self).wf(),
        ensures
            final(self).wf(),
            final(self).icons@ == old(self).icons@.union_prefer_right(m@),
            final(self).assets == old(self).assets,
            final(self).missing_assets == old(self).missing_assets,
    {
        self.icons.extend(m);
    }

    /// Keeps only the cached pairs whose id is in `ids`; the negative cache
    /// is untouched.
    pub fn filter(&mut self, ids: &Vec<AssetId>)
        requires
            old(self).wf(),
        ensures
            final(self).wf(),
            final(self).assets@ == old(self).assets@.restrict(id_set(ids@)),
            final(self).icons@ == old(self).icons@.restrict(id_set(ids@)),
            final(self).missing_assets == old(self).missing_assets,
    {
        self.assets = self.assets.restricted(ids);
        self.icons = self.icons.restricted(ids);
    }
}

/// An id a lookup resolves from the snapshot: not cached, not negatively
/// cached, and present among the stored assets.
pub open spec fn newly_resolved(
    ca: Map<Seq<u8>, AssetEntryV>,
    miss: Set<Seq<u8>>,
    sa: Map<Seq<u8>, AssetEntryV>,
    k: Seq<u8>,
) -> bool {
    !ca.contains_key(k) && !miss.contains(k) && sa.contains_key(k)
}

/// The ids a lookup answers: those requested and either already cached or
/// newly resolved.
pub open spec fn found_ids(
    ca: Map<Seq<u8>, AssetEntryV>,
    miss: Set<Seq<u8>>,
    sa: Map<Seq<u8>, AssetEntryV>,
    req: Seq<Seq<u8>>,
) -> Set<Seq<u8>> {
    Set::new(|k: Seq<u8>| req.contains(k) && (ca.contains_key(k) || newly_resolved(ca, miss, sa, k)))
}

/// The cached assets after a lookup: the old entries, plus the newly
/// resolved requested ids at their snapshot entries.
pub open spec fn assets_after(
    ca: Map<Seq<u8>, AssetEntryV>,
    miss: Set<Seq<u8>>,
    sa: Map<Seq<u8>, AssetEntryV>,
    req: Seq<Seq<u8>>,
) -> Map<Seq<u8>, AssetEntryV> {
    Map::new(
        |k: Seq<u8>| ca.contains_key(k) || (req.contains(k) && newly_resolved(ca, miss, sa, k)),
        |k: Seq<u8>|
            if ca.contains_key(k) {
                ca[k]
            } else {
                sa[k]
            },
    )
}

/// The cached icons after a lookup: the old icons, plus (or superseded by)
/// the snapshot icons of the newly resolved requested ids.
pub open spec fn icons_after(
    ca: Map<Seq<u8>, AssetEntryV>,
    ci: Map<Seq<u8>, IconEntryV>,
    miss: Set<Seq<u8>>,
    sa: Map<Seq<u8>, AssetEntryV>,
    si: Map<Seq<u8>, IconEntryV>,
    req: Seq<Seq<u8>>,
) -> Map<Seq<u8>, IconEntryV> {
    Map::new(
        |k: Seq<u8>| ci.contains_key(k) || (req.contains(k) && newly_resolved(ca, miss, sa, k)
            && si.contains_key(k)),
        |k: Seq<u8>|
            if req.contains(k) && newly_resolved(ca, miss, sa, k) && si.contains_key(k) {
                si[k]
            } else {
                ci[k]
            },
    )
}

/// The negative cache after a lookup: the old one, plus the requested ids
/// that neither the cache nor the snapshot could resolve.
pub open spec fn missing_after(
    ca: Map<Seq<u8>, AssetEntryV>,
    miss: Set<Seq<u8>>,
    sa: Map<Seq<u8>, AssetEntryV>,
    req: Seq<Seq<u8>>,
) -> Set<Seq<u8>> {
    Set::new(
        |k: Seq<u8>| miss.contains(k) || (req.contains(k) && !ca.contains_key(k)
            && !sa.contains_key(k)),
    )
}

/// Whether a lookup needs to write the cache back: some requested id is
/// neither cached nor negatively cached.
pub open spec fn lookup_writes(
    ca: Map<Seq<u8>, AssetEntryV>,
    miss: Set<Seq<u8>>,
    req: Seq<Seq<u8>>,
) -> bool {
    exists|k: Seq<u8>| req.contains(k) && !(#[trigger] ca.contains_key(k)) && !miss.contains(k)
}

/// Membership and values of [`assets_after`].
pub broadcast proof fn lemma_assets_after(
    ca: Map<Seq<u8>, AssetEntryV>,
    miss: Set<Seq<u8>>,
    sa: Map<Seq<u8>, AssetEntryV>,
    req: Seq<Seq<u8>>,
    k: Seq<u8>,
)
    ensures
        #[trigger] assets_after(ca, miss, sa, req).contains_key(k) == (ca.contains_key(k) || (
        req.contains(k) && newly_resolved(ca, miss, sa, k))),
        assets_after(ca, miss, sa, req).contains_key(k) ==> assets_after(ca, miss, sa, req)[k]
            == (if ca.contains_key(k) {
            ca[k]
        } else {
            sa[k]
        }),
{
}

/// Membership and values of [`icons_after`].
pub broadcast proof fn lemma_icons_after(
    ca: Map<Seq<u8>, AssetEntryV>,
    ci: Map<Seq<u8>, IconEntryV>,
    miss: Set<Seq<u8>>,
    sa: Map<Seq<u8>, AssetEntryV>,
    si: Map<Seq<u8>, IconEntryV>,
    req: Seq<Seq<u8>>,
    k: Seq<u8>,
)
    ensures
        #[trigger] icons_after(ca, ci, miss, sa, si, req).contains_key(k) == (ci.contains_key(k)
            || (req.contains(k) && newly_resolved(ca, miss, sa, k) && si.contains_key(k))),
        icons_after(ca, ci, miss, sa, si, req).contains_key(k) ==> icons_after(
            ca,
            ci,
            miss,
            sa,
            si,
            req,
        )[k] == (if req.contains(k) && newly_resolved(ca, miss, sa, k) && si.contains_key(k) {
            si[k]
        } else {
            ci[k]
        }),
{
}

/// Membership of [`missing_after`].
pub broadcast proof fn lemma_missing_after(
    ca: Map<Seq<u8>, AssetEntryV>,
    miss: Set<Seq<u8>>,
    sa: Map<Seq<u8>, AssetEntryV>,
    req: Seq<Seq<u8>>,
    k: Seq<u8>,
)
    ensures
        #[trigger] missing_after(ca, miss, sa, req).contains(k) == (miss.contains(k) || (
        req.contains(k) && !ca.contains_key(k) && !sa.contains_key(k))),
{
}

/// Membership of [`found_ids`].
pub broadcast proof fn lemma_found_ids(
    ca: Map<Seq<u8>, AssetEntryV>,
    miss: Set<Seq<u8>>,
    sa: Map<Seq<u8>, AssetEntryV>,
    req: Seq<Seq<u8>>,
    k: Seq<u8>,
)
    ensures
        #[trigger] found_ids(ca, miss, sa, req).contains(k) == (req.contains(k) && (
        ca.contains_key(k) || newly_resolved(ca, miss, sa, k))),
{
}

/// Cache additivity: an id with a resolved entry in the cache keeps exactly
/// that entry across any lookup, whatever was requested and whatever the
/// snapshot holds.
pub proof fn lemma_cache_additivity(
    ca: Map<Seq<u8>, AssetEntryV>,
    miss: Set<Seq<u8>>,
    sa: Map<Seq<u8>, AssetEntryV>,
    req: Seq<Seq<u8>>,
    k: Seq<u8>,
)
    requires
        ca.contains_key(k),
    ensures
        assets_after(ca, miss, sa, req).contains_key(k),
        assets_after(ca, miss, sa, req)[k] == ca[k],
{
    broadcast use lemma_assets_after;

}

/// No redundant re-resolution: when every requested id is either cached or
/// negatively cached, a lookup needs no write and leaves the cached assets
/// and the negative cache as they were.
pub proof fn lemma_no_redundant_resolution(
    ca: Map<Seq<u8>, AssetEntryV>,
    miss: Set<Seq<u8>>,
    sa: Map<Seq<u8>, AssetEntryV>,
    req: Seq<Seq<u8>>,
)
    requires
        forall|k: Seq<u8>| #[trigger] req.contains(k) ==> ca.contains_key(k) || miss.contains(k),
    ensures
        !lookup_writes(ca, miss, req),
        assets_after(ca, miss, sa, req) == ca,
        missing_after(ca, miss, sa, req) == miss,
{
    broadcast use lemma_assets_after, lemma_missing_after;

    assert(assets_after(ca, miss, sa, req) =~= ca);
    assert(missing_after(ca, miss, sa, req) =~= miss);
}

/// Lookups of one query against one cache and snapshot state have one
/// answer: the returned contents are a function of the request, the cache
/// and the snapshot alone, so any number of lookups of the same query see
/// identical results.
pub proof fn lemma_lookup_deterministic(
    a1: Map<Seq<u8>, AssetEntryV>,
    a2: Map<Seq<u8>, AssetEntryV>,
    ca: Map<Seq<u8>, AssetEntryV>,
    miss: Set<Seq<u8>>,
    sa: Map<Seq<u8>, AssetEntryV>,
    req: Seq<Seq<u8>>,
)
    requires
        a1 == assets_after(ca, miss, sa, req).restrict(found_ids(ca, miss, sa, req)),
        a2 == assets_after(ca, miss, sa, req).restrict(found_ids(ca, miss, sa, req)),
    ensures
        a1 == a2,
{
}

/// The ids of `ids` that are not negatively cached, preserving order.
fn retain_not_missing(ids: &Vec<AssetId>, miss: &IdSet) -> (r: Vec<AssetId>)
    ensures
        forall|k: Seq<u8>| #[trigger]
            ids_of(r@).contains(k) <==> ids_of(ids@).contains(k) && !miss@.contains(k),
{
    let mut r: Vec<AssetId> = Vec::new();
    let mut i: usize = 0;
    while i < ids.len()
        invariant
            i <= ids@.len(),
            forall|k: Seq<u8>| #[trigger]
                ids_of(r@).contains(k) <==> ids_of(ids@.take(i as int)).contains(k)
                    && !miss@.contains(k),
        decreases ids@.len() - i,
    {
        let id = &ids[i];
        if !miss.contains(id) {
            r.push(id.dup());
        }
        i += 1;
        proof {
            assert(ids@.take(i as int) =~= ids@.take(i - 1).push(ids@[i - 1]));
        }
    }
    proof {
        assert(ids@.take(ids@.len() as int) =~= ids@);
    }
    r
}

/// Answers an id-scoped query from the identity's cache and the last
/// persisted whole-registry snapshot.
///
/// The result holds exactly the requested ids that could be resolved; the
/// cache gains the newly resolved entries and the newly unresolvable ids
/// (in its negative cache) and loses nothing. The returned flag says whether
/// the cache changed and must be written back; at most that one combined
/// write is needed per call. The snapshot store is only read, and no id is
/// ever revealed to the remote source.
pub fn get_assets(requested: &Vec<AssetId>, cache: &mut IdentityCache, store: &SnapshotStore) -> (r:
    (RegistryResult, bool))
    requires
        old(cache).wf(),
        store.wf(),
    ensures
        final(cache).wf(),
        r.0.wf(),
        final(cache).assets@ == assets_after(
            old(cache).assets@,
            old(cache).missing_assets@,
            store.assets.value@,
            ids_of(requested@),
        ),
        final(cache).icons@ == icons_after(
            old(cache).assets@,
            old(cache).icons@,
            old(cache).missing_assets@,
            store.assets.value@,
            store.icons.value@,
            ids_of(requested@),
        ),
        final(cache).missing_assets@ == missing_after(
            old(cache).assets@,
            old(cache).missing_assets@,
            store.assets.value@,
            ids_of(requested@),
        ),
        r.0.assets@ == assets_after(
            old(cache).assets@,
            old(cache).missing_assets@,
            store.assets.value@,
            ids_of(requested@),
        ).restrict(
            found_ids(
                old(cache).assets@,
                old(cache).missing_assets@,
                store.assets.value@,
                ids_of(requested@),
            ),
        ),
        r.0.icons@ == icons_after(
            old(cache).assets@,
            old(cache).icons@,
            old(cache).missing_assets@,
            store.assets.value@,
            store.icons.value@,
            ids_of(requested@),
        ).restrict(
            found_ids(
                old(cache).assets@,
                old(cache).missing_assets@,
                store.assets.value@,
                ids_of(requested@),
            ),
        ),
        r.1 == lookup_writes(old(cache).assets@, old(cache).missing_assets@, ids_of(requested@)),
        !r.1 ==> *final(cache) == *old(cache),
{
    broadcast use lemma_assets_after, lemma_icons_after, lemma_missing_after, lemma_found_ids;

    let (found, not_found_raw) = cache.split_present(requested);
    let not_found = retain_not_missing(&not_found_raw, &cache.missing_assets);
    if not_found.is_empty() {
        let out = RegistryResult {
            assets: cache.assets.restricted(&found),
            icons: cache.icons.restricted(&found),
        };
        proof {
            assert(forall|k: Seq<u8>| !(#[trigger] ids_of(not_found@).contains(k)));
            assert forall|k: Seq<u8>|
                ids_of(requested@).contains(k) && !(#[trigger] cache.assets@.contains_key(k))
                    implies cache.missing_assets@.contains(k) by {
                if !cache.missing_assets@.contains(k) {
                    assert(ids_of(not_found_raw@).contains(k));
                    assert(ids_of(not_found@).contains(k));
                }
            }
            assert(cache.assets@ =~= assets_after(
                cache.assets@,
                cache.missing_assets@,
                store.assets.value@,
                ids_of(requested@),
            ));
            assert(cache.icons@ =~= icons_after(
                cache.assets@,
                cache.icons@,
                cache.missing_assets@,
                store.assets.value@,
                store.icons.value@,
                ids_of(requested@),
            ));
            assert(cache.missing_assets@ =~= missing_after(
                cache.assets@,
                cache.missing_assets@,
                store.assets.value@,
                ids_of(requested@),
            ));
            assert(id_set(found@) =~= found_ids(
                cache.assets@,
                cache.missing_assets@,
                store.assets.value@,
                ids_of(requested@),
            ));
        }
        return (out, false);
    }
    proof {
        assert(ids_of(not_found@).contains(not_found@[0]@)) by {
            assert(ids_of(not_found@)[0] == not_found@[0]@);
        }
    }
    // The offline whole-registry refresh: with the network forbidden it
    // returns the stored snapshot values unchanged, so the snapshot is read
    // directly here.
    let (found_in_registry, still_not_found) = split_by_assets(&store.assets.value, &not_found);
    cache.register_missing(&still_not_found);
    let add_assets = store.assets.value.restricted(&found_in_registry);
    let add_icons = store.icons.value.restricted(&found_in_registry);
    cache.extend_assets(add_assets);
    cache.extend_icons(add_icons);
    let mut all_found = found;
    let mut fir = found_in_registry;
    all_found.append(&mut fir);
    let out = RegistryResult {
        assets: cache.assets.restricted(&all_found),
        icons: cache.icons.restricted(&all_found),
    };
    proof {
        assert(cache.assets@ =~= assets_after(
            old(cache).assets@,
            old(cache).missing_assets@,
            store.assets.value@,
            ids_of(requested@),
        ));
        assert(cache.icons@ =~= icons_after(
            old(cache).assets@,
            old(cache).icons@,
            old(cache).missing_assets@,
            store.assets.value@,
            store.icons.value@,
            ids_of(requested@),
        ));
        assert(cache.missing_assets@ =~= missing_after(
            old(cache).assets@,
            old(cache).missing_assets@,
            store.assets.value@,
            ids_of(requested@),
        ));
        assert(id_set(all_found@) =~= found_ids(
            old(cache).assets@,
            old(cache).missing_assets@,
            store.assets.value@,
            ids_of(requested@),
        ));
    }
    (out, true)
}

} // verus!
