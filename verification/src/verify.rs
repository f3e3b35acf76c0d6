//! Verification of an asset entry's committed identifier.
//!
//! An asset id on the ledger is derived from the issuance outpoint and the
//! hash of the issuance contract. An entry downloaded from a registry claims
//! an id; recomputing the derivation from the entry's own commitment fields
//! and comparing tells whether the claim is honest.

use vstd::prelude::*;
use crate::ids::{AssetId, spec_rev, rev_bytes};
use crate::entries::{AssetEntry, AssetEntryV, RegEntry};
use crate::entry_map::{EntryMap, distinct_keys, map_of, lemma_map_of_contains};

verus! {

/// What SHA-256 returns on the given bytes.
pub uninterp spec fn sha256_of(b: Seq<u8>) -> Seq<u8>;

/// What the SHA-256 compression midstate is after exactly one 64-byte block.
pub uninterp spec fn midstate64_of(b: Seq<u8>) -> Seq<u8>;

/// Relies on bitcoin::hashes::sha256::Hash::hash: the SHA-256 digest of a
/// byte string, a function of the bytes alone, 32 bytes long.
#[verifier::external_body]
fn sha256_bytes(b: &Vec<u8>) -> (r: Vec<u8>)
    ensures
        r@ == sha256_of(b@),
        r@.len() == 32,
{
    let h = <bitcoin::hashes::sha256::Hash as bitcoin::hashes::Hash>::hash(b.as_slice());
    bitcoin::hashes::Hash::to_byte_array(h).to_vec()
}

/// Relies on bitcoin::hashes::sha256::HashEngine: the SHA-256 midstate after
/// compressing exactly one 64-byte block, a function of the bytes alone,
/// 32 bytes long.
#[verifier::external_body]
fn sha256_midstate64(b: &Vec<u8>) -> (r: Vec<u8>)
    requires
        b@.len() == 64,
    ensures
        r@ == midstate64_of(b@),
        r@.len() == 32,
{
    let mut e = <bitcoin::hashes::sha256::HashEngine as Default>::default();
    bitcoin::hashes::HashEngine::input(&mut e, b.as_slice());
    bitcoin::hashes::HashEngine::midstate(&e).to_byte_array().to_vec()
}

/// The little-endian bytes of a 32-bit word.
pub open spec fn spec_u32_le(v: u32) -> Seq<u8> {
    seq![
        (v % 0x100) as u8,
        ((v / 0x100) % 0x100) as u8,
        ((v / 0x10000) % 0x100) as u8,
        ((v / 0x1000000) % 0x100) as u8,
    ]
}

/// 32 zero bytes, the second leaf hashed into an asset identifier.
pub open spec fn spec_zeros32() -> Seq<u8> {
    Seq::new(32, |i: int| 0u8)
}

/// The serialized issuance outpoint: the reversed transaction id followed
/// by the little-endian output index.
pub open spec fn spec_outpoint_bytes(txid: Seq<u8>, vout: u32) -> Seq<u8> {
    spec_rev(txid) + spec_u32_le(vout)
}

/// The identifier an issuance commits to: a two-level midstate tree over the
/// double-SHA-256 of the outpoint and the SHA-256 of the contract, rendered
/// in display byte order.
pub open spec fn spec_computed_id(contract: Seq<u8>, txid: Seq<u8>, vout: u32) -> Seq<u8> {
    spec_rev(
        midstate64_of(
            midstate64_of(
                sha256_of(sha256_of(spec_outpoint_bytes(txid, vout))) + sha256_of(contract),
            ) + spec_zeros32(),
        ),
    )
}

/// Whether an entry's commitment matches the id it claims.
pub open spec fn entry_verifies(e: AssetEntryV) -> bool {
    spec_computed_id(e.contract, e.issuance_txid, e.issuance_vout) == e.asset_id
}

/// The little-endian bytes of a 32-bit word, as a vector.
pub fn u32_le_bytes(v: u32) -> (r: Vec<u8>)
    ensures
        r@ == spec_u32_le(v),
{
    let mut r: Vec<u8> = Vec::new();
    r.push((v % 0x100) as u8);
    r.push(((v / 0x100) % 0x100) as u8);
    r.push(((v / 0x10000) % 0x100) as u8);
    r.push(((v / 0x1000000) % 0x100) as u8);
    proof {
        assert(r@ =~= spec_u32_le(v));
    }
    r
}

/// The id committed to by the given contract bytes and issuance outpoint.
pub fn computed_asset_id(contract: &Vec<u8>, txid: &Vec<u8>, vout: u32) -> (r: AssetId)
    ensures
        r@ == spec_computed_id(contract@, txid@, vout),
{
    let mut prevout = rev_bytes(txid);
    let mut vle = u32_le_bytes(vout);
    prevout.append(&mut vle);
    let inner = sha256_bytes(&prevout);
    let mut leaf = sha256_bytes(&inner);
    let mut ch = sha256_bytes(contract);
    leaf.append(&mut ch);
    let mut entropy = sha256_midstate64(&leaf);
    let mut zeros: Vec<u8> = Vec::new();
    let mut i: usize = 0;
    while i < 32
        invariant
            i <= 32,
            zeros@.len() == i,
            forall|j: int| 0 <= j < i ==> zeros@[j] == 0u8,
        decreases 32 - i,
    {
        zeros.push(0u8);
        i += 1;
    }
    proof {
        assert(zeros@ =~= spec_zeros32());
    }
    entropy.append(&mut zeros);
    let raw = sha256_midstate64(&entropy);
    AssetId { bytes: rev_bytes(&raw) }
}

/// Whether the entry's committed identifier matches its claimed id.
pub fn verify_entry(e: &AssetEntry) -> (r: bool)
    ensures
        r == entry_verifies(e@),
{
    let cid = computed_asset_id(&e.contract, &e.issuance_txid, e.issuance_vout);
    cid.eq_id(&e.asset_id)
}

/// The sub-mapping of entries whose commitment verifies.
pub open spec fn verified_subset(m: Map<Seq<u8>, AssetEntryV>) -> Map<Seq<u8>, AssetEntryV> {
    Map::new(|k: Seq<u8>| m.contains_key(k) && entry_verifies(m[k]), |k: Seq<u8>| m[k])
}

/// Membership and values of the verified sub-mapping.
pub broadcast proof fn lemma_verified_subset(m: Map<Seq<u8>, AssetEntryV>, k: Seq<u8>)
    ensures
        #[trigger] verified_subset(m).contains_key(k) == (m.contains_key(k) && entry_verifies(
            m[k],
        )),
        verified_subset(m).contains_key(k) ==> verified_subset(m)[k] == m[k],
{
}

impl EntryMap<AssetEntry> {
    /// Discards every entry whose commitment fails verification; the entries
    /// that verify are kept unchanged.
    pub fn retain_verified(&mut self)
        requires
            old(self).wf(),
        ensures
            final(self)@ == verified_subset(old(self)@),
            final(self).wf(),
    {
        broadcast use lemma_verified_subset;

        let mut kept: Vec<AssetEntry> = Vec::new();
        let mut i: usize = 0;
        while i < self.entries.len()
            invariant
                i <= self.entries@.len(),
                distinct_keys(self.entries@),
                distinct_keys(kept@),
                map_of(kept@) == verified_subset(map_of(self.entries@.take(i as int))),
            decreases self.entries@.len() - i,
        {
            let e = &self.entries[i];
            let ghost k = e.key_spec();
            let ghost pre = kept@;
            if verify_entry(e) {
                kept.push(e.dup());
                proof {
                    lemma_map_of_contains(pre, k);
                    lemma_map_of_contains(self.entries@.take(i as int), k);
                    if exists|j: int| 0 <= j < pre.len() && pre[j].key_spec() == k {
                        assert(map_of(pre).contains_key(k));
                        let l = choose|l: int|
                            0 <= l < i && self.entries@.take(i as int)[l].key_spec() == k;
                        assert(self.entries@[l].key_spec() == k);
                        assert(false);
                    }
                    assert(forall|j: int| 0 <= j < pre.len() ==> pre[j].key_spec() != k);
                    assert(kept@.drop_last() =~= pre);
                    assert(distinct_keys(kept@));
                    assert(map_of(kept@) == map_of(pre).insert(k, self.entries@[i as int]@));
                }
            }
            i += 1;
            proof {
                lemma_map_of_contains(self.entries@.take(i - 1), k);
                assert(!map_of(self.entries@.take(i - 1)).contains_key(k));
                assert(self.entries@.take(i as int).drop_last() =~= self.entries@.take(i - 1));
                assert(self.entries@.take(i as int).last() == self.entries@[i - 1]);
                if entry_verifies(self.entries@[i - 1]@) {
                    assert(verified_subset(map_of(self.entries@.take(i as int)))
                        =~= verified_subset(map_of(self.entries@.take(i - 1))).insert(
                        k,
                        self.entries@[i - 1]@,
                    ));
                } else {
                    assert(verified_subset(map_of(self.entries@.take(i as int)))
                        =~= verified_subset(map_of(self.entries@.take(i - 1))));
                }
            }
        }
        proof {
            assert(self.entries@.take(self.entries@.len() as int) =~= self.entries@);
        }
        self.entries = kept;
    }
}

} // verus!
