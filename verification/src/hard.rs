//! The hard-coded canonical table: per-network entries that are bundled with
//! the software and always authoritative over downloaded data.

use vstd::prelude::*;
use crate::ids::{AssetId, spec_word_bytes};
use crate::entries::{AssetEntry, IconEntry};
use crate::entry_map::EntryMap;

verus! {

/// The Liquid-style networks the registry serves.
#[derive(Debug, Clone, Copy, PartialEq, Eq, Structural)]
pub enum ElementsNetwork {
    /// Liquid mainnet.
    Liquid,
    /// Liquid testnet.
    LiquidTestnet,
    /// A local regtest network.
    ElementsRegtest,
}

/// The id bytes of a network's policy asset (the asset fees are paid in).
pub open spec fn spec_policy_asset_id(network: ElementsNetwork) -> Seq<u8> {
    match network {
        ElementsNetwork::Liquid => spec_word_bytes(0x6f0279e9ed041c3d) + spec_word_bytes(
            0x710a9f57d0c02928,
        ) + spec_word_bytes(0x416460c4b722ae34) + spec_word_bytes(0x57a11eec381c526d),
        ElementsNetwork::LiquidTestnet => spec_word_bytes(0x144c654344aa716d) + spec_word_bytes(
            0x6f3abcc1ca90e564,
        ) + spec_word_bytes(0x1e4e2a7f633bc09f) + spec_word_bytes(0xe3baf64585819a49),
        ElementsNetwork::ElementsRegtest => spec_word_bytes(0x5ac9f65c0efcc477) + spec_word_bytes(
            0x5e0baec4ec03abdd,
        ) + spec_word_bytes(0xe22473cd3cf33c04) + spec_word_bytes(0x19ca290e0751b225),
    }
}

/// The policy asset id of the network.
pub fn policy_asset_id(network: ElementsNetwork) -> (r: AssetId)
    ensures
        r@ == spec_policy_asset_id(network),
        r@.len() == 32,
{
    match network {
        ElementsNetwork::Liquid => AssetId::from_words(
            0x6f0279e9ed041c3d,
            0x710a9f57d0c02928,
            0x416460c4b722ae34,
            0x57a11eec381c526d,
        ),
        ElementsNetwork::LiquidTestnet => AssetId::from_words(
            0x144c654344aa716d,
            0x6f3abcc1ca90e564,
            0x1e4e2a7f633bc09f,
            0xe3baf64585819a49,
        ),
        ElementsNetwork::ElementsRegtest => AssetId::from_words(
            0x5ac9f65c0efcc477,
            0x5e0baec4ec03abdd,
            0xe22473cd3cf33c04,
            0x19ca290e0751b225,
        ),
    }
}

/// The display name of a network's policy asset.
pub open spec fn spec_policy_name(network: ElementsNetwork) -> Seq<char> {
    match network {
        ElementsNetwork::Liquid => "Liquid Bitcoin"@,
        ElementsNetwork::LiquidTestnet => "Testnet Liquid Bitcoin"@,
        ElementsNetwork::ElementsRegtest => "Liquid Bitcoin (regtest)"@,
    }
}

/// The ticker of a network's policy asset.
pub open spec fn spec_policy_ticker(network: ElementsNetwork) -> Seq<char> {
    match network {
        ElementsNetwork::Liquid => "L-BTC"@,
        ElementsNetwork::LiquidTestnet => "tL-BTC"@,
        ElementsNetwork::ElementsRegtest => "L-BTC"@,
    }
}

/// The canonical asset entries of the network: the policy asset.
pub fn hard_coded_assets(network: ElementsNetwork) -> (r: EntryMap<AssetEntry>)
    ensures
        r.wf(),
        r@.len() == 1,
        r@.contains_key(spec_policy_asset_id(network)),
        r@[spec_policy_asset_id(network)].asset_id == spec_policy_asset_id(network),
        r@[spec_policy_asset_id(network)].name == spec_policy_name(network),
        r@[spec_policy_asset_id(network)].ticker == spec_policy_ticker(network),
        r@[spec_policy_asset_id(network)].precision == 8,
{
    let name: String = match network {
        ElementsNetwork::Liquid => "Liquid Bitcoin".to_string(),
        ElementsNetwork::LiquidTestnet => "Testnet Liquid Bitcoin".to_string(),
        ElementsNetwork::ElementsRegtest => "Liquid Bitcoin (regtest)".to_string(),
    };
    let ticker: String = match network {
        ElementsNetwork::Liquid => "L-BTC".to_string(),
        ElementsNetwork::LiquidTestnet => "tL-BTC".to_string(),
        ElementsNetwork::ElementsRegtest => "L-BTC".to_string(),
    };
    let entry = AssetEntry {
        asset_id: policy_asset_id(network),
        name,
        ticker,
        precision: 8,
        domain: String::new(),
        issuer_pubkey: String::new(),
        contract: Vec::new(),
        issuance_txid: Vec::new(),
        issuance_vout: 0,
    };
    let mut r = EntryMap::<AssetEntry>::new();
    r.insert(entry);
    r
}

/// The canonical icons of the network: the policy asset's icon.
pub fn hard_coded_icons(network: ElementsNetwork) -> (r: EntryMap<IconEntry>)
    ensures
        r.wf(),
        r@.len() == 1,
        r@.contains_key(spec_policy_asset_id(network)),
        r@[spec_policy_asset_id(network)].asset_id == spec_policy_asset_id(network),
{
    let mut data: Vec<u8> = Vec::new();
    data.push(0x89);
    data.push(0x50);
    data.push(0x4e);
    data.push(0x47);
    let entry = IconEntry { asset_id: policy_asset_id(network), data };
    let mut r = EntryMap::<IconEntry>::new();
    r.insert(entry);
    r
}

} // verus!
