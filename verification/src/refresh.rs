//! The whole-registry refresh protocol.
//!
//! Given a request naming the kinds wanted, the protocol loads the stored
//! versioned value per kind, optionally reconciles it with what a conditional
//! fetch returned (a new value is taken only when the modification token
//! differs; downloaded asset entries failing verification are discarded and
//! canonical entries override on merge), and assembles the requested kinds
//! into a result. Reading the snapshot files and talking to the network are
//! the caller's business: the fetch outcome, if any, is handed in as a value,
//! and the store is updated in place for the caller to persist.

use vstd::prelude::*;
use crate::ids::{AssetId, ids_of, id_set, bytes_eq, lemma_id_set_contains, lemma_ids_of_push};
use crate::entries::{AssetEntry, AssetEntryV, IconEntry, IconEntryV};
use crate::entry_map::EntryMap;
use crate::verify::verified_subset;

verus! {

broadcast use lemma_id_set_contains, lemma_ids_of_push;

/// Maps asset ids to their metadata entries.
pub type AssetMap = EntryMap<AssetEntry>;

/// Maps asset ids to their icons.
pub type IconMap = EntryMap<IconEntry>;

/// Why a refresh or a lookup failed.
#[derive(Debug, Clone, Copy, PartialEq, Eq, Structural)]
pub enum Error {
    /// Neither assets nor icons were requested.
    InvalidRequest,
    /// The identity key failed to parse.
    IdentityMalformed,
    /// No cache file exists yet for the identity; recoverable.
    CacheNotFound,
    /// The cache file failed authentication or decryption.
    CacheCorrupt,
    /// The network transport failed.
    Transport,
    /// A downloaded payload failed to parse.
    Decode,
    /// A write to durable storage failed.
    Persistence,
}

/// The two kinds the registry serves.
#[derive(Debug, Clone, Copy, PartialEq, Eq, Structural)]
pub enum AssetsOrIcons {
    /// Asset metadata.
    Assets,
    /// Asset icons.
    Icons,
}

/// A request for a whole-registry refresh.
#[derive(Debug, Clone, Copy, PartialEq, Eq, Structural)]
pub struct RefreshAssetsParam {
    /// Whether asset metadata is requested.
    pub assets: bool,
    /// Whether icons are requested.
    pub icons: bool,
    /// Whether the remote source may be contacted; when false the last
    /// persisted snapshot is reused as-is.
    pub refresh: bool,
}

/// The kinds a request asks for, in the order they are served.
pub open spec fn spec_asked(assets: bool, icons: bool) -> Seq<AssetsOrIcons> {
    if assets && icons {
        seq![AssetsOrIcons::Assets, AssetsOrIcons::Icons]
    } else if assets {
        seq![AssetsOrIcons::Assets]
    } else if icons {
        seq![AssetsOrIcons::Icons]
    } else {
        Seq::empty()
    }
}

impl RefreshAssetsParam {
    /// The kinds the request asks for; a request for neither is invalid.
    pub fn asked(&self) -> (r: Result<Vec<AssetsOrIcons>, Error>)
        ensures
            r is Err <==> (!self.assets && !self.icons),
            match r {
                Ok(v) => v@ == spec_asked(self.assets, self.icons),
                Err(e) => e == Error::InvalidRequest,
            },
    {
        if !self.assets && !self.icons {
            return Err(Error::InvalidRequest);
        }
        let mut v: Vec<AssetsOrIcons> = Vec::new();
        if self.assets {
            v.push(AssetsOrIcons::Assets);
        }
        if self.icons {
            v.push(AssetsOrIcons::Icons);
        }
        proof {
            assert(v@ =~= spec_asked(self.assets, self.icons));
        }
        Ok(v)
    }
}

/// A value from the snapshot store or the remote source, tagged with the
/// opaque modification token it was served under. Tokens are compared for
/// equality only, never ordered.
#[derive(Debug, Clone, PartialEq, Eq)]
pub struct VersionedValue<T> {
    /// The opaque modification token.
    pub token: Vec<u8>,
    /// The carried value.
    pub value: T,
}

/// The in-memory image of one network's snapshot store: the last persisted
/// versioned value of each kind.
#[derive(Debug, Clone, PartialEq, Eq)]
pub struct SnapshotStore {
    /// The stored asset metadata with its token.
    pub assets: VersionedValue<AssetMap>,
    /// The stored icons with their token.
    pub icons: VersionedValue<IconMap>,
}

/// Every canonical pair is present in the mapping, with exactly the
/// canonical entry.
pub open spec fn includes_canonical<V>(m: Map<Seq<u8>, V>, hard: Map<Seq<u8>, V>) -> bool {
    forall|k: Seq<u8>| #[trigger]
        hard.contains_key(k) ==> m.contains_key(k) && m[k] == hard[k]
}

/// What a changed download merges to for assets: the entries that verify,
/// overridden by the canonical entries.
pub open spec fn merge_assets(
    down: Map<Seq<u8>, AssetEntryV>,
    hard: Map<Seq<u8>, AssetEntryV>,
) -> Map<Seq<u8>, AssetEntryV> {
    verified_subset(down).union_prefer_right(hard)
}

/// What a changed download merges to for icons: the downloaded entries,
/// overridden by the canonical entries.
pub open spec fn merge_icons(
    down: Map<Seq<u8>, IconEntryV>,
    hard: Map<Seq<u8>, IconEntryV>,
) -> Map<Seq<u8>, IconEntryV> {
    down.union_prefer_right(hard)
}

impl SnapshotStore {
    /// Both stored mappings are well formed.
    pub open spec fn wf(&self) -> bool {
        self.assets.value.wf() && self.icons.value.wf()
    }

    /// The store as a refresh with no prior snapshot sees it: empty tokens
    /// and the canonical entries as values.
    pub fn initial(hard_assets: AssetMap, hard_icons: IconMap) -> (r: SnapshotStore)
        requires
            hard_assets.wf(),
            hard_icons.wf(),
        ensures
            r.wf(),
            r.assets.token@ == Seq::<u8>::empty(),
            r.icons.token@ == Seq::<u8>::empty(),
            r.assets.value@ == hard_assets@,
            r.icons.value@ == hard_icons@,
            includes_canonical(r.assets.value@, hard_assets@),
            includes_canonical(r.icons.value@, hard_icons@),
    {
        SnapshotStore {
            assets: VersionedValue { token: Vec::new(), value: hard_assets },
            icons: VersionedValue { token: Vec::new(), value: hard_icons },
        }
    }

    /// Rebuilds a store from persisted parts, re-imposing the canonical
    /// entries over whatever was read (the canonical entry wins on a shared
    /// id, as it did when the snapshot was written).
    pub fn from_parts(
        assets_token: Vec<u8>,
        assets: AssetMap,
        icons_token: Vec<u8>,
        icons: IconMap,
        hard_assets: AssetMap,
        hard_icons: IconMap,
    ) -> (r: SnapshotStore)
        requires
            assets.wf(),
            icons.wf(),
            hard_assets.wf(),
            hard_icons.wf(),
        ensures
            r.wf(),
            r.assets.token@ == assets_token@,
            r.icons.token@ == icons_token@,
            r.assets.value@ == assets@.union_prefer_right(hard_assets@),
            r.icons.value@ == icons@.union_prefer_right(hard_icons@),
            includes_canonical(r.assets.value@, hard_assets@),
            includes_canonical(r.icons.value@, hard_icons@),
    {
        let mut a = assets;
        a.extend(hard_assets);
        let mut i = icons;
        i.extend(hard_icons);
        SnapshotStore {
            assets: VersionedValue { token: assets_token, value: a },
            icons: VersionedValue { token: icons_token, value: i },
        }
    }
}

/// The requested slice of the registry: asset metadata and icons by id.
#[derive(Debug, Clone, PartialEq, Eq)]
pub struct RegistryResult {
    /// Asset metadata by id.
    pub assets: AssetMap,
    /// Icons by id.
    pub icons: IconMap,
}

impl RegistryResult {
    /// Both mappings are well formed.
    pub open spec fn wf(&self) -> bool {
        self.assets.wf() && self.icons.wf()
    }

    /// The empty result.
    pub fn empty() -> (r: RegistryResult)
        ensures
            r.wf(),
            r.assets@ == Map::<Seq<u8>, AssetEntryV>::empty(),
            r.icons@ == Map::<Seq<u8>, IconEntryV>::empty(),
    {
        RegistryResult { assets: EntryMap::new(), icons: EntryMap::new() }
    }

    /// Keeps only the pairs whose id is in `ids`.
    pub fn filter(&mut self, ids: &Vec<AssetId>)
        requires
            old(self).wf(),
        ensures
            final(self).wf(),
            final(self).assets@ == old(self).assets@.restrict(id_set(ids@)),
            final(self).icons@ == old(self).icons@.restrict(id_set(ids@)),
    {
        self.assets = self.assets.restricted(ids);
        self.icons = self.icons.restricted(ids);
    }

    /// Splits `ids` into those present among the assets and those absent,
    /// without changing the result.
    pub fn split_present(&self, ids: &Vec<AssetId>) -> (r: (Vec<AssetId>, Vec<AssetId>))
        ensures
            forall|k: Seq<u8>| #[trigger]
                ids_of(r.0@).contains(k) <==> ids_of(ids@).contains(k)
                    && self.assets@.contains_key(k),
            forall|k: Seq<u8>| #[trigger]
                ids_of(r.1@).contains(k) <==> ids_of(ids@).contains(k)
                    && !self.assets@.contains_key(k),
    {
        split_by_assets(&self.assets, ids)
    }
}

/// Splits `ids` into those mapped by `m` and those not, preserving order.
pub fn split_by_assets(m: &AssetMap, ids: &Vec<AssetId>) -> (r: (Vec<AssetId>, Vec<AssetId>))
    ensures
        forall|k: Seq<u8>| #[trigger]
            ids_of(r.0@).contains(k) <==> ids_of(ids@).contains(k) && m@.contains_key(k),
        forall|k: Seq<u8>| #[trigger]
            ids_of(r.1@).contains(k) <==> ids_of(ids@).contains(k) && !m@.contains_key(k),
{
    let mut found: Vec<AssetId> = Vec::new();
    let mut not_found: Vec<AssetId> = Vec::new();
    let mut i: usize = 0;
    while i < ids.len()
        invariant
            i <= ids@.len(),
            forall|k: Seq<u8>| #[trigger]
                ids_of(found@).contains(k) <==> ids_of(ids@.take(i as int)).contains(k)
                    && m@.contains_key(k),
            forall|k: Seq<u8>| #[trigger]
                ids_of(not_found@).contains(k) <==> ids_of(ids@.take(i as int)).contains(k)
                    && !m@.contains_key(k),
        decreases ids@.len() - i,
    {
        let id = &ids[i];
        if m.contains_key(id) {
            found.push(id.dup());
        } else {
            not_found.push(id.dup());
        }
        i += 1;
        proof {
            assert(ids@.take(i as int) =~= ids@.take(i - 1).push(ids@[i - 1]));
        }
    }
    proof {
        assert(ids@.take(ids@.len() as int) =~= ids@);
    }
    (found, not_found)
}

/// Reconciles one stored kind with what the fetch returned for it. With no
/// fetch outcome, or one whose token equals the stored one, the stored value
/// is reused and nothing is written; a changed token replaces the stored
/// value with the merged download.
fn refresh_assets_kind(
    stored: &mut VersionedValue<AssetMap>,
    fetched: Option<VersionedValue<AssetMap>>,
    hard: &AssetMap,
) -> (r: AssetMap)
    requires
        old(stored).value.wf(),
        hard.wf(),
        match fetched {
            Some(f) => f.value.wf(),
            None => true,
        },
    ensures
        r.wf(),
        final(stored).value.wf(),
        match fetched {
            None => *final(stored) == *old(stored) && r@ == old(stored).value@,
            Some(f) => if f.token@ == old(stored).token@ {
                *final(stored) == *old(stored) && r@ == old(stored).value@
            } else {
                final(stored).token@ == f.token@ && final(stored).value@ == merge_assets(
                    f.value@,
                    hard@,
                ) && r@ == merge_assets(f.value@, hard@)
            },
        },
{
    match fetched {
        None => stored.value.duplicate(),
        Some(f) => {
            if bytes_eq(&f.token, &stored.token) {
                stored.value.duplicate()
            } else {
                let VersionedValue { token, value } = f;
                let mut m = value;
                m.retain_verified();
                m.extend(hard.duplicate());
                let r = m.duplicate();
                stored.token = token;
                stored.value = m;
                r
            }
        },
    }
}

/// The icon counterpart of the per-kind reconciliation; icons carry no
/// commitment, so nothing is filtered before the canonical merge.
fn refresh_icons_kind(
    stored: &mut VersionedValue<IconMap>,
    fetched: Option<VersionedValue<IconMap>>,
    hard: &IconMap,
) -> (r: IconMap)
    requires
        old(stored).value.wf(),
        hard.wf(),
        match fetched {
            Some(f) => f.value.wf(),
            None => true,
        },
    ensures
        r.wf(),
        final(stored).value.wf(),
        match fetched {
            None => *final(stored) == *old(stored) && r@ == old(stored).value@,
            Some(f) => if f.token@ == old(stored).token@ {
                *final(stored) == *old(stored) && r@ == old(stored).value@
            } else {
                final(stored).token@ == f.token@ && final(stored).value@ == merge_icons(
                    f.value@,
                    hard@,
                ) && r@ == merge_icons(f.value@, hard@)
            },
        },
{
    match fetched {
        None => stored.value.duplicate(),
        Some(f) => {
            if bytes_eq(&f.token, &stored.token) {
                stored.value.duplicate()
            } else {
                let VersionedValue { token, value } = f;
                let mut m = value;
                m.extend(hard.duplicate());
                let r = m.duplicate();
                stored.token = token;
                stored.value = m;
                r
            }
        },
    }
}

/// Runs the whole-registry refresh protocol.
///
/// `fetched_assets` and `fetched_icons` carry what a conditional fetch
/// against the remote source returned for each kind, or `None` where no
/// fetch happened (the request forbade the network, no source is
/// configured, or the kind was not requested); with `refresh` false they
/// are ignored outright. The store is updated in place exactly where a
/// changed token was merged; the caller persists those kinds.
pub fn refresh_assets(
    details: &RefreshAssetsParam,
    store: &mut SnapshotStore,
    fetched_assets: Option<VersionedValue<AssetMap>>,
    fetched_icons: Option<VersionedValue<IconMap>>,
    hard_assets: &AssetMap,
    hard_icons: &IconMap,
) -> (r: Result<RegistryResult, Error>)
    requires
        old(store).wf(),
        hard_assets.wf(),
        hard_icons.wf(),
        match fetched_assets {
            Some(f) => f.value.wf(),
            None => true,
        },
        match fetched_icons {
            Some(f) => f.value.wf(),
            None => true,
        },
    ensures
        final(store).wf(),
        r is Err <==> (!details.assets && !details.icons),
        match r {
            Err(e) => e == Error::InvalidRequest && *final(store) == *old(store),
            Ok(out) => {
                &&& out.wf()
                &&& (!details.assets ==> final(store).assets == old(store).assets && out.assets@
                    == Map::<Seq<u8>, AssetEntryV>::empty())
                &&& (!details.icons ==> final(store).icons == old(store).icons && out.icons@
                    == Map::<Seq<u8>, IconEntryV>::empty())
                &&& (details.assets ==> match (if details.refresh {
                    fetched_assets
                } else {
                    None
                }) {
                    None => final(store).assets == old(store).assets && out.assets@ == old(
                        store,
                    ).assets.value@,
                    Some(f) => if f.token@ == old(store).assets.token@ {
                        final(store).assets == old(store).assets && out.assets@ == old(
                            store,
                        ).assets.value@
                    } else {
                        final(store).assets.token@ == f.token@ && final(store).assets.value@
                            == merge_assets(f.value@, hard_assets@) && out.assets@ == merge_assets(
                            f.value@,
                            hard_assets@,
                        )
                    },
                })
                &&& (details.icons ==> match (if details.refresh {
                    fetched_icons
                } else {
                    None
                }) {
                    None => final(store).icons == old(store).icons && out.icons@ == old(
                        store,
                    ).icons.value@,
                    Some(f) => if f.token@ == old(store).icons.token@ {
                        final(store).icons == old(store).icons && out.icons@ == old(
                            store,
                        ).icons.value@
                    } else {
                        final(store).icons.token@ == f.token@ && final(store).icons.value@
                            == merge_icons(f.value@, hard_icons@) && out.icons@ == merge_icons(
                            f.value@,
                            hard_icons@,
                        )
                    },
                })
                &&& (details.assets && includes_canonical(old(store).assets.value@, hard_assets@)
                    ==> includes_canonical(out.assets@, hard_assets@))
                &&& (includes_canonical(old(store).assets.value@, hard_assets@)
                    ==> includes_canonical(final(store).assets.value@, hard_assets@))
                &&& (includes_canonical(old(store).icons.value@, hard_icons@)
                    ==> includes_canonical(final(store).icons.value@, hard_icons@))
            },
        },
{
    if !details.assets && !details.icons {
        return Err(Error::InvalidRequest);
    }
    let fa = if details.refresh {
        fetched_assets
    } else {
        None
    };
    let fi = if details.refresh {
        fetched_icons
    } else {
        None
    };
    let mut out = RegistryResult::empty();
    if details.assets {
        out.assets = refresh_assets_kind(&mut store.assets, fa, hard_assets);
        proof {
            lemma_merge_assets_canonical(hard_assets@);
        }
    }
    if details.icons {
        out.icons = refresh_icons_kind(&mut store.icons, fi, hard_icons);
        proof {
            lemma_merge_icons_canonical(hard_icons@);
        }
    }
    Ok(out)
}

/// Canonical precedence: every canonical pair survives an asset merge
/// exactly, whatever was downloaded for the same id.
pub proof fn lemma_merge_assets_canonical(hard: Map<Seq<u8>, AssetEntryV>)
    ensures
        forall|down: Map<Seq<u8>, AssetEntryV>| #[trigger]
            includes_canonical(merge_assets(down, hard), hard),
{
}

/// Canonical precedence for icons.
pub proof fn lemma_merge_icons_canonical(hard: Map<Seq<u8>, IconEntryV>)
    ensures
        forall|down: Map<Seq<u8>, IconEntryV>| #[trigger]
            includes_canonical(merge_icons(down, hard), hard),
{
}

/// The verification filter: a downloaded entry that fails verification
/// reaches neither the merged result nor (through it) the snapshot store,
/// and every non-canonical entry the merge does hold is a downloaded entry
/// that verifies, unchanged.
pub proof fn lemma_verification_filter(
    down: Map<Seq<u8>, AssetEntryV>,
    hard: Map<Seq<u8>, AssetEntryV>,
    k: Seq<u8>,
)
    requires
        merge_assets(down, hard).contains_key(k),
        !hard.contains_key(k),
    ensures
        down.contains_key(k),
        crate::verify::entry_verifies(down[k]),
        merge_assets(down, hard)[k] == down[k],
{
    broadcast use crate::verify::lemma_verified_subset;

}

} // verus!
