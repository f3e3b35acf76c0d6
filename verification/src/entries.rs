//! Asset metadata and icon records.

use vstd::prelude::*;
use crate::ids::{AssetId, dup_bytes};

verus! {

/// Mathematical mirror of [`AssetEntry`].
pub ghost struct AssetEntryV {
    pub asset_id: Seq<u8>,
    pub name: Seq<char>,
    pub ticker: Seq<char>,
    pub precision: u8,
    pub domain: Seq<char>,
    pub issuer_pubkey: Seq<char>,
    pub contract: Seq<u8>,
    pub issuance_txid: Seq<u8>,
    pub issuance_vout: u32,
}

/// Mathematical mirror of [`IconEntry`].
pub ghost struct IconEntryV {
    pub asset_id: Seq<u8>,
    pub data: Seq<u8>,
}

/// An entry keyed by an asset id; what the registry maps store.
pub trait RegEntry: View + Sized {
    /// The id under which the entry is keyed.
    spec fn key_spec(&self) -> Seq<u8>;

    /// The id under which the entry is keyed.
    fn key(&self) -> (k: &AssetId)
        ensures
            k@ == self.key_spec(),
    ;

    /// A fresh entry with the same contents.
    fn dup(&self) -> (r: Self)
        ensures
            r@ == self@,
            r.key_spec() == self.key_spec(),
    ;
}

/// Attributes sufficient to render an asset to a user, together with the
/// data that commits the record to its own id: the issuance contract (as
/// canonically serialized bytes) and the issuance outpoint.
#[derive(Debug, Clone, PartialEq, Eq)]
pub struct AssetEntry {
    /// The id the record claims; verification recomputes it from the
    /// commitment fields below.
    pub asset_id: AssetId,
    /// Display name of the asset.
    pub name: String,
    /// Ticker of the asset.
    pub ticker: String,
    /// Decimal places shown for amounts of the asset.
    pub precision: u8,
    /// Domain of the issuer.
    pub domain: String,
    /// Public key of the issuer.
    pub issuer_pubkey: String,
    /// Canonically serialized issuance contract.
    pub contract: Vec<u8>,
    /// Transaction id (display byte order) of the issuance input.
    pub issuance_txid: Vec<u8>,
    /// Output index of the issuance input.
    pub issuance_vout: u32,
}

impl View for AssetEntry {
    type V = AssetEntryV;

    open spec fn view(&self) -> AssetEntryV {
        AssetEntryV {
            asset_id: self.asset_id@,
            name: self.name@,
            ticker: self.ticker@,
            precision: self.precision,
            domain: self.domain@,
            issuer_pubkey: self.issuer_pubkey@,
            contract: self.contract@,
            issuance_txid: self.issuance_txid@,
            issuance_vout: self.issuance_vout,
        }
    }
}

impl RegEntry for AssetEntry {
    open spec fn key_spec(&self) -> Seq<u8> {
        self.asset_id@
    }

    fn key(&self) -> (k: &AssetId) {
        &self.asset_id
    }

    fn dup(&self) -> (r: AssetEntry) {
        AssetEntry {
            asset_id: self.asset_id.dup(),
            name: self.name.clone(),
            ticker: self.ticker.clone(),
            precision: self.precision,
            domain: self.domain.clone(),
            issuer_pubkey: self.issuer_pubkey.clone(),
            contract: dup_bytes(&self.contract),
            issuance_txid: dup_bytes(&self.issuance_txid),
            issuance_vout: self.issuance_vout,
        }
    }
}

/// An asset id together with the encoded bytes of its icon.
#[derive(Debug, Clone, PartialEq, Eq)]
pub struct IconEntry {
    /// The id of the asset the icon belongs to.
    pub asset_id: AssetId,
    /// Encoded image bytes, as served by the registry.
    pub data: Vec<u8>,
}

impl View for IconEntry {
    type V = IconEntryV;

    open spec fn view(&self) -> IconEntryV {
        IconEntryV { asset_id: self.asset_id@, data: self.data@ }
    }
}

impl RegEntry for IconEntry {
    open spec fn key_spec(&self) -> Seq<u8> {
        self.asset_id@
    }

    fn key(&self) -> (k: &AssetId) {
        &self.asset_id
    }

    fn dup(&self) -> (r: IconEntry) {
        IconEntry { asset_id: self.asset_id.dup(), data: dup_bytes(&self.data) }
    }
}

} // verus!
