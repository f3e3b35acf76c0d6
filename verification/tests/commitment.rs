//! Tests of the committed-identifier computation and entry verification.

use gdk_registry::ids::AssetId;
use gdk_registry::verify::{computed_asset_id, verify_entry};
use gdk_registry::entries::AssetEntry;

fn hex_to_bytes(s: &str) -> Vec<u8> {
    let b = s.as_bytes();
    assert!(b.len() % 2 == 0);
    let mut out = Vec::new();
    let val = |c: u8| -> u8 {
        match c {
            b'0'..=b'9' => c - b'0',
            b'a'..=b'f' => c - b'a' + 10,
            b'A'..=b'F' => c - b'A' + 10,
            _ => panic!("not hex"),
        }
    };
    let mut i = 0;
    while i < b.len() {
        out.push(val(b[i]) * 16 + val(b[i + 1]));
        i += 2;
    }
    out
}

fn bytes_to_hex(b: &[u8]) -> String {
    let digits = b"0123456789abcdef";
    let mut s = String::new();
    for byte in b {
        s.push(digits[(byte >> 4) as usize] as char);
        s.push(digits[(byte & 0x0f) as usize] as char);
    }
    s
}

const USDT_CONTRACT: &str = "{\"entity\":{\"domain\":\"tether.to\"},\"issuer_pubkey\":\"0337cceec0beea0232ebe14cba0197a9fbd45fcf2ec946749de920e71434c2b904\",\"name\":\"Tether USD\",\"precision\":8,\"ticker\":\"USDt\",\"version\":0}";
const USDT_TXID: &str = "9596d259270ef5bac0020435e6d859aea633409483ba64e232b8ba04ce288668";
const USDT_ID: &str = "ce091c998b83c78bb71a632313ba3760f1763d9cfcffae02258ffa9865a37bd2";

#[test]
fn test_computed_asset_id_known_value() {
    let contract = USDT_CONTRACT.as_bytes().to_vec();
    let txid = hex_to_bytes(USDT_TXID);
    let id = computed_asset_id(&contract, &txid, 0);
    assert_eq!(bytes_to_hex(&id.bytes), USDT_ID);
}

fn usdt_entry() -> AssetEntry {
    AssetEntry {
        asset_id: AssetId::new(hex_to_bytes(USDT_ID)),
        name: "Tether USD".to_string(),
        ticker: "USDt".to_string(),
        precision: 8,
        domain: "tether.to".to_string(),
        issuer_pubkey: "0337cceec0beea0232ebe14cba0197a9fbd45fcf2ec946749de920e71434c2b904"
            .to_string(),
        contract: USDT_CONTRACT.as_bytes().to_vec(),
        issuance_txid: hex_to_bytes(USDT_TXID),
        issuance_vout: 0,
    }
}

#[test]
fn test_verify_entry_accepts_consistent_entry() {
    assert!(verify_entry(&usdt_entry()));
}

#[test]
fn test_verify_entry_rejects_tampered_entry() {
    let mut e = usdt_entry();
    // A different contract no longer commits to the claimed id.
    e.contract[10] ^= 1;
    assert!(!verify_entry(&e));

    let mut e = usdt_entry();
    e.issuance_vout = 1;
    assert!(!verify_entry(&e));

    let mut e = usdt_entry();
    e.asset_id.bytes[0] ^= 1;
    assert!(!verify_entry(&e));
}

#[test]
fn test_verify_entry_accepts_synthetic_issuance() {
    // An entry whose id is recomputed from its own commitment verifies.
    let contract = b"{\"name\":\"Example\",\"precision\":0}".to_vec();
    let txid = vec![7u8; 32];
    let id = computed_asset_id(&contract, &txid, 3);
    let e = AssetEntry {
        asset_id: id,
        name: "Example".to_string(),
        ticker: "EXA".to_string(),
        precision: 0,
        domain: String::new(),
        issuer_pubkey: String::new(),
        contract,
        issuance_txid: txid,
        issuance_vout: 3,
    };
    assert!(verify_entry(&e));
}

#[test]
fn test_policy_asset_id_bytes() {
    let id = gdk_registry::hard::policy_asset_id(gdk_registry::hard::ElementsNetwork::Liquid);
    assert_eq!(
        bytes_to_hex(&id.bytes),
        "6f0279e9ed041c3d710a9f57d0c02928416460c4b722ae3457a11eec381c526d"
    );
    let t = gdk_registry::hard::policy_asset_id(
        gdk_registry::hard::ElementsNetwork::LiquidTestnet,
    );
    assert_eq!(
        bytes_to_hex(&t.bytes),
        "144c654344aa716d6f3abcc1ca90e5641e4e2a7f633bc09fe3baf64585819a49"
    );
}
