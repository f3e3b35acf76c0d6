//! Asset identifiers and small byte-string utilities.

use vstd::prelude::*;

verus! {

/// The big-endian bytes of a 64-bit word.
pub open spec fn spec_word_bytes(w: u64) -> Seq<u8> {
    seq![
        ((w / 0x100000000000000) % 0x100) as u8,
        ((w / 0x1000000000000) % 0x100) as u8,
        ((w / 0x10000000000) % 0x100) as u8,
        ((w / 0x100000000) % 0x100) as u8,
        ((w / 0x1000000) % 0x100) as u8,
        ((w / 0x10000) % 0x100) as u8,
        ((w / 0x100) % 0x100) as u8,
        (w % 0x100) as u8,
    ]
}

/// The reversal of a byte string.
pub open spec fn spec_rev(s: Seq<u8>) -> Seq<u8> {
    Seq::new(s.len(), |i: int| s[s.len() - 1 - i])
}

/// The views of a sequence of ids.
pub open spec fn ids_of(s: Seq<AssetId>) -> Seq<Seq<u8>> {
    s.map_values(|a: AssetId| a@)
}

/// The set of ids occurring in a sequence of ids.
pub open spec fn id_set(s: Seq<AssetId>) -> Set<Seq<u8>> {
    Set::new(|k: Seq<u8>| ids_of(s).contains(k))
}

/// An id is in the set of a sequence exactly when the sequence contains it.
pub broadcast proof fn lemma_id_set_contains(s: Seq<AssetId>, k: Seq<u8>)
    ensures
        #[trigger] id_set(s).contains(k) == ids_of(s).contains(k),
{
    assert(Set::new(|q: Seq<u8>| ids_of(s).contains(q)).contains(k) == ids_of(s).contains(k));
}

/// Concatenation contains an id exactly when one of the parts does.
pub broadcast proof fn lemma_ids_of_append(a: Seq<AssetId>, b: Seq<AssetId>, k: Seq<u8>)
    ensures
        #[trigger] ids_of(a + b).contains(k) == (ids_of(a).contains(k) || ids_of(b).contains(k)),
{
    if ids_of(a).contains(k) {
        let j = choose|j: int| 0 <= j < a.len() && ids_of(a)[j] == k;
        assert(ids_of(a + b)[j] == k);
    }
    if ids_of(b).contains(k) {
        let j = choose|j: int| 0 <= j < b.len() && ids_of(b)[j] == k;
        assert(ids_of(a + b)[a.len() + j] == k);
    }
    if ids_of(a + b).contains(k) {
        let j = choose|j: int| 0 <= j < (a + b).len() && ids_of(a + b)[j] == k;
        if j < a.len() {
            assert(ids_of(a)[j] == k);
        } else {
            assert(ids_of(b)[j - a.len()] == k);
        }
    }
}

/// Appending an id extends the contained id views by exactly that id.
pub broadcast proof fn lemma_ids_of_push(s: Seq<AssetId>, a: AssetId, k: Seq<u8>)
    ensures
        #[trigger] ids_of(s.push(a)).contains(k) == (ids_of(s).contains(k) || a@ == k),
{
    assert(ids_of(s.push(a)) =~= ids_of(s).push(a@));
    if ids_of(s).contains(k) {
        let j = choose|j: int| 0 <= j < ids_of(s).len() && ids_of(s)[j] == k;
        assert(ids_of(s.push(a))[j] == k);
    }
    if a@ == k {
        assert(ids_of(s.push(a))[s.len() as int] == k);
    }
    if ids_of(s.push(a)).contains(k) && !(a@ == k) {
        let j = choose|j: int| 0 <= j < ids_of(s.push(a)).len() && ids_of(s.push(a))[j] == k;
        assert(j < s.len());
        assert(ids_of(s)[j] == k);
    }
}

/// Byte-exact equality of two byte strings.
pub fn bytes_eq(a: &Vec<u8>, b: &Vec<u8>) -> (r: bool)
    ensures
        r == (a@ == b@),
{
    if a.len() != b.len() {
        return false;
    }
    let mut i: usize = 0;
    while i < a.len()
        invariant
            i <= a@.len(),
            a@.len() == b@.len(),
            forall|j: int| 0 <= j < i ==> a@[j] == b@[j],
        decreases a@.len() - i,
    {
        if a[i] != b[i] {
            return false;
        }
        i += 1;
    }
    proof {
        assert(a@ =~= b@);
    }
    true
}

/// A fresh byte string with the same contents.
pub fn dup_bytes(v: &Vec<u8>) -> (r: Vec<u8>)
    ensures
        r@ == v@,
{
    let mut r: Vec<u8> = Vec::new();
    let mut i: usize = 0;
    while i < v.len()
        invariant
            i <= v@.len(),
            r@ == v@.take(i as int),
        decreases v@.len() - i,
    {
        r.push(v[i]);
        i += 1;
        proof {
            assert(r@ =~= v@.take(i as int));
        }
    }
    proof {
        assert(v@.take(v@.len() as int) =~= v@);
    }
    r
}

/// The reversal of a byte string, as a new vector.
pub fn rev_bytes(v: &Vec<u8>) -> (r: Vec<u8>)
    ensures
        r@ == spec_rev(v@),
{
    let mut r: Vec<u8> = Vec::new();
    let mut i: usize = v.len();
    while i > 0
        invariant
            i <= v@.len(),
            r@.len() == v@.len() - i,
            forall|j: int| 0 <= j < r@.len() ==> r@[j] == v@[v@.len() - 1 - j],
        decreases i,
    {
        i -= 1;
        r.push(v[i]);
    }
    proof {
        assert(r@ =~= spec_rev(v@));
    }
    r
}

/// The big-endian bytes of a 64-bit word, as a vector.
pub fn word_bytes_be(w: u64) -> (r: Vec<u8>)
    ensures
        r@ == spec_word_bytes(w),
{
    let mut r: Vec<u8> = Vec::new();
    r.push(((w / 0x100000000000000) % 0x100) as u8);
    r.push(((w / 0x1000000000000) % 0x100) as u8);
    r.push(((w / 0x10000000000) % 0x100) as u8);
    r.push(((w / 0x100000000) % 0x100) as u8);
    r.push(((w / 0x1000000) % 0x100) as u8);
    r.push(((w / 0x10000) % 0x100) as u8);
    r.push(((w / 0x100) % 0x100) as u8);
    r.push((w % 0x100) as u8);
    proof {
        assert(r@ =~= spec_word_bytes(w));
    }
    r
}

/// Opaque content-derived identifier of an asset. Equality is byte-exact;
/// identifiers in use are 32 bytes long.
#[derive(Debug, Clone, PartialEq, Eq)]
pub struct AssetId {
    pub bytes: Vec<u8>,
}

impl View for AssetId {
    type V = Seq<u8>;

    open spec fn view(&self) -> Seq<u8> {
        self.bytes@
    }
}

impl AssetId {
    /// Wraps raw identifier bytes.
    pub fn new(bytes: Vec<u8>) -> (r: AssetId)
        ensures
            r@ == bytes@,
    {
        AssetId { bytes }
    }

    /// Byte-exact equality of two identifiers.
    pub fn eq_id(&self, other: &AssetId) -> (r: bool)
        ensures
            r == (self@ == other@),
    {
        bytes_eq(&self.bytes, &other.bytes)
    }

    /// A fresh identifier with the same bytes.
    pub fn dup(&self) -> (r: AssetId)
        ensures
            r@ == self@,
    {
        AssetId { bytes: dup_bytes(&self.bytes) }
    }

    /// Builds a 32-byte identifier from four big-endian 64-bit words.
    pub fn from_words(w0: u64, w1: u64, w2: u64, w3: u64) -> (r: AssetId)
        ensures
            r@ == spec_word_bytes(w0) + spec_word_bytes(w1) + spec_word_bytes(w2)
                + spec_word_bytes(w3),
            r@.len() == 32,
    {
        let mut b = word_bytes_be(w0);
        let mut t1 = word_bytes_be(w1);
        b.append(&mut t1);
        let mut t2 = word_bytes_be(w2);
        b.append(&mut t2);
        let mut t3 = word_bytes_be(w3);
        b.append(&mut t3);
        AssetId { bytes: b }
    }
}

/// Whether a vector of ids contains one with the given bytes.
pub fn contains_id(ids: &Vec<AssetId>, id: &AssetId) -> (r: bool)
    ensures
        r == ids_of(ids@).contains(id@),
{
    let mut i: usize = 0;
    while i < ids.len()
        invariant
            i <= ids@.len(),
            forall|j: int| 0 <= j < i ==> ids@[j]@ != id@,
        decreases ids@.len() - i,
    {
        if ids[i].eq_id(id) {
            proof {
                assert(ids_of(ids@)[i as int] == id@);
            }
            return true;
        }
        i += 1;
    }
    proof {
        assert(forall|j: int| 0 <= j < ids_of(ids@).len() ==> ids_of(ids@)[j] != id@);
    }
    false
}

/// A set of asset ids (used for the negative cache); order and duplicates
/// are immaterial.
#[derive(Debug, Clone)]
pub struct IdSet {
    pub items: Vec<AssetId>,
}

impl View for IdSet {
    type V = Set<Seq<u8>>;

    open spec fn view(&self) -> Set<Seq<u8>> {
        id_set(self.items@)
    }
}

impl IdSet {
    /// The empty set.
    pub fn new() -> (r: IdSet)
        ensures
            r@ == Set::<Seq<u8>>::empty(),
    {
        let r = IdSet { items: Vec::new() };
        proof {
            assert(r@ =~= Set::<Seq<u8>>::empty());
        }
        r
    }

    /// Membership, by byte-exact id equality.
    pub fn contains(&self, id: &AssetId) -> (r: bool)
        ensures
            r == self@.contains(id@),
    {
        contains_id(&self.items, id)
    }

    /// Adds every id of `ids` to the set; the set only grows.
    pub fn insert_all(&mut self, ids: &Vec<AssetId>)
        ensures
            final(self)@ == old(self)@ + id_set(ids@),
    {
        let ghost orig = self.items@;
        let mut i: usize = 0;
        while i < ids.len()
            invariant
                i <= ids@.len(),
                self.items@.len() == orig.len() + i,
                forall|j: int| 0 <= j < orig.len() ==> self.items@[j] == orig[j],
                forall|j: int|
                    orig.len() <= j < self.items@.len() ==> self.items@[j]@ == ids@[
                        j - orig.len()
                    ]@,
            decreases ids@.len() - i,
        {
            let d = ids[i].dup();
            self.items.push(d);
            i += 1;
        }
        proof {
            assert forall|k: Seq<u8>|
                self@.contains(k) == (old(self)@ + id_set(ids@)).contains(k) by {
                let s = self.items@;
                if ids_of(s).contains(k) {
                    let j = choose|j: int| 0 <= j < s.len() && ids_of(s)[j] == k;
                    if j < orig.len() {
                        assert(ids_of(orig)[j] == k);
                    } else {
                        assert(ids_of(ids@)[j - orig.len()] == k);
                    }
                }
                if ids_of(orig).contains(k) {
                    let j = choose|j: int| 0 <= j < orig.len() && ids_of(orig)[j] == k;
                    assert(ids_of(s)[j] == k);
                }
                if ids_of(ids@).contains(k) {
                    let j = choose|j: int| 0 <= j < ids@.len() && ids_of(ids@)[j] == k;
                    assert(ids_of(s)[j + orig.len()] == k);
                }
            }
            assert(self@ =~= old(self)@ + id_set(ids@));
        }
    }
}

} // verus!
