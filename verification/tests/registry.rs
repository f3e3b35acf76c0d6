//! Tests of the whole-registry refresh protocol.

use gdk_registry::entries::{AssetEntry, IconEntry};
use gdk_registry::entry_map::EntryMap;
use gdk_registry::hard::{hard_coded_assets, hard_coded_icons, policy_asset_id, ElementsNetwork};
use gdk_registry::ids::AssetId;
use gdk_registry::refresh::{
    refresh_assets, AssetsOrIcons, Error, RefreshAssetsParam, SnapshotStore, VersionedValue,
};
use gdk_registry::verify::computed_asset_id;

fn entry(id: AssetId, name: &str, contract: Vec<u8>, txid: Vec<u8>, vout: u32) -> AssetEntry {
    AssetEntry {
        asset_id: id,
        name: name.to_string(),
        ticker: "TST".to_string(),
        precision: 2,
        domain: String::new(),
        issuer_pubkey: String::new(),
        contract,
        issuance_txid: txid,
        issuance_vout: vout,
    }
}

/// An entry whose claimed id really is committed to by its contract and
/// issuance outpoint, so that it passes verification.
fn honest_entry(name: &str, contract_tag: u8) -> AssetEntry {
    let contract = vec![b'{', contract_tag, b'}'];
    let txid = vec![contract_tag; 32];
    let id = computed_asset_id(&contract, &txid, 0);
    entry(id, name, contract, txid, 0)
}

fn liquid_store() -> SnapshotStore {
    SnapshotStore::initial(
        hard_coded_assets(ElementsNetwork::Liquid),
        hard_coded_icons(ElementsNetwork::Liquid),
    )
}

#[test]
fn test_invalid_request() {
    let mut store = liquid_store();
    let details = RefreshAssetsParam { assets: false, icons: false, refresh: true };
    let hard_a = hard_coded_assets(ElementsNetwork::Liquid);
    let hard_i = hard_coded_icons(ElementsNetwork::Liquid);
    let r = refresh_assets(&details, &mut store, None, None, &hard_a, &hard_i);
    assert_eq!(r, Err(Error::InvalidRequest));
}

#[test]
fn test_asked_kinds() {
    let p = |assets, icons| RefreshAssetsParam { assets, icons, refresh: false };
    assert_eq!(p(false, false).asked(), Err(Error::InvalidRequest));
    assert_eq!(p(true, false).asked(), Ok(vec![AssetsOrIcons::Assets]));
    assert_eq!(p(false, true).asked(), Ok(vec![AssetsOrIcons::Icons]));
    assert_eq!(
        p(true, true).asked(),
        Ok(vec![AssetsOrIcons::Assets, AssetsOrIcons::Icons])
    );
}

#[test]
fn test_refresh_without_snapshot_returns_canonical() {
    // With no prior snapshot and no fetch outcome, a refresh serves exactly
    // the canonical table.
    let mut store = liquid_store();
    let hard_a = hard_coded_assets(ElementsNetwork::Liquid);
    let hard_i = hard_coded_icons(ElementsNetwork::Liquid);
    let details = RefreshAssetsParam { assets: true, icons: false, refresh: true };
    let out = refresh_assets(&details, &mut store, None, None, &hard_a, &hard_i).unwrap();
    assert_eq!(out.assets.len(), hard_a.len());
    assert_eq!(out.icons.len(), 0);
    let policy = policy_asset_id(ElementsNetwork::Liquid);
    let got = out.assets.get(&policy).unwrap();
    assert_eq!(got.name, "Liquid Bitcoin");
    assert_eq!(got.ticker, "L-BTC");
    assert_eq!(got.precision, 8);

    let details = RefreshAssetsParam { assets: false, icons: true, refresh: false };
    let out = refresh_assets(&details, &mut store, None, None, &hard_a, &hard_i).unwrap();
    assert!(out.assets.is_empty());
    assert_eq!(out.icons.len(), 1);
    assert!(out.icons.get(&policy).is_some());
}

#[test]
fn test_result_filter_and_split_present() {
    let hard_a = hard_coded_assets(ElementsNetwork::Liquid);
    let hard_i = hard_coded_icons(ElementsNetwork::Liquid);
    let mut store = liquid_store();
    let details = RefreshAssetsParam { assets: true, icons: true, refresh: false };
    let mut out = refresh_assets(&details, &mut store, None, None, &hard_a, &hard_i).unwrap();

    let policy = policy_asset_id(ElementsNetwork::Liquid);
    let absent = AssetId::new(vec![4u8; 32]);
    let (present, missing) = out.split_present(&vec![policy.clone(), absent.clone()]);
    assert_eq!(present, vec![policy.clone()]);
    assert_eq!(missing, vec![absent.clone()]);

    out.filter(&vec![absent]);
    assert!(out.assets.is_empty());
    assert!(out.icons.is_empty());
}

#[test]
fn test_unchanged_token_reuses_snapshot() {
    // A fetch outcome bearing the stored token leaves the snapshot alone and
    // serves the stored value, whatever payload came with it.
    let hard_a = hard_coded_assets(ElementsNetwork::Liquid);
    let hard_i = hard_coded_icons(ElementsNetwork::Liquid);
    let mut store = SnapshotStore::from_parts(
        b"tok-1".to_vec(),
        EntryMap::from_entries(vec![honest_entry("Old", b'a')]),
        b"tok-1".to_vec(),
        EntryMap::new(),
        hard_coded_assets(ElementsNetwork::Liquid),
        hard_coded_icons(ElementsNetwork::Liquid),
    );
    let before = store.clone();
    let junk = VersionedValue {
        token: b"tok-1".to_vec(),
        value: EntryMap::from_entries(vec![honest_entry("Junk", b'b')]),
    };
    let details = RefreshAssetsParam { assets: true, icons: false, refresh: true };
    let out = refresh_assets(&details, &mut store, Some(junk), None, &hard_a, &hard_i).unwrap();
    assert_eq!(store, before);
    assert_eq!(out.assets, before.assets.value);
}

#[test]
fn test_changed_token_verifies_filters_and_merges() {
    let policy = policy_asset_id(ElementsNetwork::Liquid);
    let hard_a = hard_coded_assets(ElementsNetwork::Liquid);
    let hard_i = hard_coded_icons(ElementsNetwork::Liquid);
    let mut store = liquid_store();

    // A liar claims the policy asset id without the matching commitment, a
    // second liar claims some other id, and one entry is honest.
    let impostor = entry(policy.clone(), "Impostor", b"{}".to_vec(), vec![1u8; 32], 0);
    let liar = entry(AssetId::new(vec![9u8; 32]), "Liar", b"{}".to_vec(), vec![2u8; 32], 0);
    let honest = honest_entry("Honest", b'c');
    let honest_id = honest.asset_id.clone();
    let fetched = VersionedValue {
        token: b"tok-2".to_vec(),
        value: EntryMap::from_entries(vec![impostor, liar.clone(), honest.clone()]),
    };
    let details = RefreshAssetsParam { assets: true, icons: true, refresh: true };
    let out =
        refresh_assets(&details, &mut store, Some(fetched), None, &hard_a, &hard_i).unwrap();

    // The canonical policy entry overrides the impostor.
    let got = out.assets.get(&policy).unwrap();
    assert_eq!(got.name, "Liquid Bitcoin");
    // The liar was filtered out, the honest entry kept unchanged.
    assert!(out.assets.get(&liar.asset_id).is_none());
    assert_eq!(out.assets.get(&honest_id).unwrap(), &honest);
    assert_eq!(out.assets.len(), 2);
    // The merged value was persisted under the new token.
    assert_eq!(store.assets.token, b"tok-2".to_vec());
    assert_eq!(store.assets.value, out.assets);
    // The icons kind had no fetch outcome and stayed as it was.
    assert_eq!(store.icons.token, Vec::<u8>::new());
    assert_eq!(out.icons.len(), 1);
}

#[test]
fn test_canonical_precedence_over_honest_duplicate() {
    // Even a downloaded entry that verifies is overridden by a canonical
    // entry with the same id: the canonical table is injected, so build one
    // around an id we can commit to honestly.
    let mut canonical_entry = honest_entry("Canonical truth", b'd');
    canonical_entry.ticker = "CAN".to_string();
    let shared_id = canonical_entry.asset_id.clone();
    let hard_a = EntryMap::from_entries(vec![canonical_entry.clone()]);
    let hard_i: EntryMap<IconEntry> = EntryMap::new();
    let mut store = SnapshotStore::initial(
        EntryMap::from_entries(vec![canonical_entry.clone()]),
        EntryMap::new(),
    );

    let mut rival = honest_entry("Downloaded rival", b'd');
    rival.ticker = "RVL".to_string();
    assert_eq!(rival.asset_id, shared_id);
    let fetched = VersionedValue {
        token: b"tok-3".to_vec(),
        value: EntryMap::from_entries(vec![rival]),
    };
    let details = RefreshAssetsParam { assets: true, icons: false, refresh: true };
    let out =
        refresh_assets(&details, &mut store, Some(fetched), None, &hard_a, &hard_i).unwrap();
    assert_eq!(out.assets.get(&shared_id).unwrap(), &canonical_entry);
    assert_eq!(store.assets.value.get(&shared_id).unwrap(), &canonical_entry);
}

#[test]
fn test_refresh_flag_false_ignores_fetch_outcome() {
    let hard_a = hard_coded_assets(ElementsNetwork::Liquid);
    let hard_i = hard_coded_icons(ElementsNetwork::Liquid);
    let mut store = liquid_store();
    let before = store.clone();
    let fetched = VersionedValue {
        token: b"tok-9".to_vec(),
        value: EntryMap::from_entries(vec![honest_entry("New", b'e')]),
    };
    let details = RefreshAssetsParam { assets: true, icons: false, refresh: false };
    let out = refresh_assets(&details, &mut store, Some(fetched), None, &hard_a, &hard_i).unwrap();
    assert_eq!(store, before);
    assert_eq!(out.assets, before.assets.value);
}
