//! Tests of the per-identity cache protocol.

use gdk_registry::entries::AssetEntry;
use gdk_registry::entry_map::EntryMap;
use gdk_registry::hard::{hard_coded_assets, hard_coded_icons, policy_asset_id, ElementsNetwork};
use gdk_registry::ids::AssetId;
use gdk_registry::lookup::{get_assets, IdentityCache};
use gdk_registry::refresh::SnapshotStore;
use gdk_registry::verify::computed_asset_id;

fn honest_entry(name: &str, tag: u8) -> AssetEntry {
    let contract = vec![b'{', tag, b'}'];
    let txid = vec![tag; 32];
    let id = computed_asset_id(&contract, &txid, 0);
    AssetEntry {
        asset_id: id,
        name: name.to_string(),
        ticker: "TST".to_string(),
        precision: 2,
        domain: String::new(),
        issuer_pubkey: String::new(),
        contract,
        issuance_txid: txid,
        issuance_vout: 0,
    }
}

fn liquid_store() -> SnapshotStore {
    SnapshotStore::initial(
        hard_coded_assets(ElementsNetwork::Liquid),
        hard_coded_icons(ElementsNetwork::Liquid),
    )
}

fn empty_store() -> SnapshotStore {
    SnapshotStore::initial(EntryMap::new(), EntryMap::new())
}

#[test]
fn test_lookup_policy_asset_from_snapshot() {
    // An empty identity cache and a snapshot holding only canonical entries:
    // looking up the policy asset id returns exactly that entry.
    let store = liquid_store();
    let mut cache = IdentityCache::new();
    let policy = policy_asset_id(ElementsNetwork::Liquid);
    let (out, dirty) = get_assets(&vec![policy.clone()], &mut cache, &store);
    assert!(dirty);
    assert_eq!(out.assets.len(), 1);
    let got = out.assets.get(&policy).unwrap();
    assert_eq!(got.name, "Liquid Bitcoin");
    assert_eq!(got.ticker, "L-BTC");
    assert_eq!(got.precision, 8);
    assert_eq!(out.icons.len(), 1);
    // The resolved entry was folded into the cache.
    assert!(cache.assets.get(&policy).is_some());
}

#[test]
fn test_cache_additivity_across_lookups() {
    // Once an id is resolved into the cache, later lookups keep it even when
    // the id is absent from later snapshots.
    let e = honest_entry("Kept", b'k');
    let id = e.asset_id.clone();
    let store = SnapshotStore::initial(EntryMap::from_entries(vec![e.clone()]), EntryMap::new());
    let mut cache = IdentityCache::new();
    let (out, dirty) = get_assets(&vec![id.clone()], &mut cache, &store);
    assert!(dirty);
    assert_eq!(out.assets.get(&id).unwrap(), &e);

    // The id is gone from the registry, another id is requested alongside.
    let gone = empty_store();
    let other = AssetId::new(vec![5u8; 32]);
    let (out2, dirty2) = get_assets(&vec![id.clone(), other.clone()], &mut cache, &gone);
    assert!(dirty2);
    assert_eq!(out2.assets.get(&id).unwrap(), &e);
    assert!(out2.assets.get(&other).is_none());
    assert!(cache.assets.get(&id).is_some());

    // A third lookup for the cached id alone needs no write at all.
    let (out3, dirty3) = get_assets(&vec![id.clone()], &mut cache, &gone);
    assert!(!dirty3);
    assert_eq!(out3.assets.get(&id).unwrap(), &e);
}

#[test]
fn test_negative_cache_suppresses_reresolution() {
    // An id registered missing is not looked up again: the lookup answers
    // from the cache alone, changes nothing and needs no write, even though
    // a later snapshot could now resolve the id.
    let e = honest_entry("Late", b'l');
    let id = e.asset_id.clone();
    let mut cache = IdentityCache::new();
    let (out, dirty) = get_assets(&vec![id.clone()], &mut cache, &empty_store());
    assert!(dirty);
    assert_eq!(out.assets.len(), 0);
    assert!(cache.missing_assets.contains(&id));

    let richer = SnapshotStore::initial(EntryMap::from_entries(vec![e]), EntryMap::new());
    let before_len = cache.assets.len();
    let (out2, dirty2) = get_assets(&vec![id.clone()], &mut cache, &richer);
    assert!(!dirty2);
    assert_eq!(out2.assets.len(), 0);
    assert_eq!(cache.assets.len(), before_len);
    assert!(cache.missing_assets.contains(&id));
}

#[test]
fn test_lookup_deterministic_contents() {
    // Identical queries against identical cache and snapshot state return
    // identical contents.
    let store = liquid_store();
    let policy = policy_asset_id(ElementsNetwork::Liquid);
    let query = vec![policy.clone(), AssetId::new(vec![3u8; 32])];
    let mut results = Vec::new();
    for _ in 0..5 {
        let mut cache = IdentityCache::new();
        let (out, dirty) = get_assets(&query, &mut cache, &store);
        assert!(dirty);
        results.push(out);
    }
    for r in &results {
        assert_eq!(r, &results[0]);
    }
}

#[test]
fn test_lookup_mixed_sources() {
    // A query mixing a cached id, a snapshot id and an unresolvable id.
    let cached = honest_entry("Cached", b'p');
    let fresh = honest_entry("Fresh", b'q');
    let nowhere = AssetId::new(vec![0xaa; 32]);
    let mut cache = IdentityCache::new();
    let warmup = SnapshotStore::initial(
        EntryMap::from_entries(vec![cached.clone()]),
        EntryMap::new(),
    );
    let (_, d) = get_assets(&vec![cached.asset_id.clone()], &mut cache, &warmup);
    assert!(d);

    let store = SnapshotStore::initial(EntryMap::from_entries(vec![fresh.clone()]), EntryMap::new());
    let query = vec![cached.asset_id.clone(), fresh.asset_id.clone(), nowhere.clone()];
    let (out, dirty) = get_assets(&query, &mut cache, &store);
    assert!(dirty);
    assert_eq!(out.assets.len(), 2);
    assert_eq!(out.assets.get(&cached.asset_id).unwrap(), &cached);
    assert_eq!(out.assets.get(&fresh.asset_id).unwrap(), &fresh);
    assert!(out.assets.get(&nowhere).is_none());
    assert!(cache.missing_assets.contains(&nowhere));
    assert!(!cache.missing_assets.contains(&fresh.asset_id));
}

#[test]
fn test_filter_and_split_present() {
    let a = honest_entry("One", b'1');
    let b = honest_entry("Two", b'2');
    let mut cache = IdentityCache::new();
    let store =
        SnapshotStore::initial(EntryMap::from_entries(vec![a.clone(), b.clone()]), EntryMap::new());
    let (_, _) =
        get_assets(&vec![a.asset_id.clone(), b.asset_id.clone()], &mut cache, &store);
    let (found, not_found) =
        cache.split_present(&vec![a.asset_id.clone(), AssetId::new(vec![9u8; 32])]);
    assert_eq!(found, vec![a.asset_id.clone()]);
    assert_eq!(not_found, vec![AssetId::new(vec![9u8; 32])]);

    cache.filter(&vec![a.asset_id.clone()]);
    assert_eq!(cache.assets.len(), 1);
    assert!(cache.assets.get(&a.asset_id).is_some());
    assert!(cache.assets.get(&b.asset_id).is_none());
}
