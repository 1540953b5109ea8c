//! The two Celestia proofs of a payload, checked by `celestia_types`.
use crate::bytes::B256;
use crate::codec::{
    dec_u64, dec_word, dec_words, enc_u64, enc_words, lemma_dec_enc_u64, lemma_dec_enc_word,
    lemma_concat_assoc, lemma_dec_enc_words, lemma_enc_dec_u64, lemma_enc_dec_word,
    lemma_enc_dec_words, put_u64, put_word, put_words, take_u64, take_word, take_words,
    words_view,
};
use vstd::prelude::*;

verus! {

/// A proof that a leaf is in a binary Merkle tree, as Tendermint builds it.
#[derive(Clone, Debug, PartialEq, Eq)]
pub struct MerkleProof {
    /// The leaf's index.
    pub index: usize,
    /// The number of leaves of the tree.
    pub total: usize,
    /// The hash of the leaf.
    pub leaf_hash: B256,
    /// The hashes of the siblings on the way up, the root's child last.
    pub aunts: Vec<B256>,
}

/// A Merkle proof as a mathematical value.
pub struct MerkleProofView {
    pub index: nat,
    pub total: nat,
    pub leaf_hash: Seq<u8>,
    pub aunts: Seq<Seq<u8>>,
}

impl View for MerkleProof {
    type V = MerkleProofView;

    open spec fn view(&self) -> MerkleProofView {
        MerkleProofView {
            index: self.index as nat,
            total: self.total as nat,
            leaf_hash: self.leaf_hash@,
            aunts: words_view(self.aunts@),
        }
    }
}

/// Whether the proof `(index, total, leaf_hash, aunts)` shows that `leaf` is
/// a leaf of the Merkle tree with root `root`.
pub uninterp spec fn merkle_proof_holds(
    index: nat,
    total: nat,
    leaf_hash: Seq<u8>,
    aunts: Seq<Seq<u8>>,
    leaf: Seq<u8>,
    root: Seq<u8>,
) -> bool;

/// Whether the encoded share proof shows that its shares are in the data
/// square with root `data_root`.
pub uninterp spec fn share_proof_holds(share_proof: Seq<u8>, data_root: Seq<u8>) -> bool;

/// The number of leaves of the tree of row and column roots that the first
/// row proof of the encoded share proof speaks of; `None` where the bytes do
/// not decode or hold no row proof.
pub uninterp spec fn decoded_tree_size(share_proof: Seq<u8>) -> Option<nat>;

/// The largest tree of row and column roots that a share proof is checked
/// for. A data square has at most 65536 rows, since a row's number takes 16
/// bits, and with a tree of this size the number of a row times the width of
/// the square stays far within 64 bits.
pub const MAX_TREE_LEAVES: u64 = 0x1_0000_0000;

/// Whether the tree that a share proof speaks of is small enough for the
/// outside check to count the proof's shares.
pub open spec fn tree_size_bounded(size: Option<nat>) -> bool {
    match size {
        Some(leaves) => leaves <= MAX_TREE_LEAVES,
        None => true,
    }
}

/// Whether the encoded share proof speaks of a tree of bounded size and shows
/// that its shares are in the data square with root `data_root`.
pub open spec fn share_proof_accepted(share_proof: Seq<u8>, data_root: Seq<u8>) -> bool {
    tree_size_bounded(decoded_tree_size(share_proof)) && share_proof_holds(share_proof, data_root)
}

/// The largest number of leaves for which the outside check is defined: the
/// largest power of two that the machine's word holds.
pub open spec fn max_leaves() -> nat {
    (usize::MAX / 2 + 1) as nat
}

/// Calls `celestia_types::MerkleProof::verify` on a proof with these four
/// fields.
///
/// Not proved: that the call accepts exactly the proofs that
/// [`merkle_proof_holds`] names. Trees of more leaves than [`max_leaves`] are
/// left out: the outside function rounds the count up to a power of two.
#[verifier::external_body]
pub(crate) fn verify_merkle_proof(merkle: &MerkleProof, leaf: &[u8], root: &B256) -> (r: bool)
    requires
        merkle.total <= max_leaves(),
    ensures
        r == merkle_proof_holds(
            merkle.index as nat,
            merkle.total as nat,
            merkle.leaf_hash@,
            words_view(merkle.aunts@),
            leaf@,
            root@,
        ),
{
    let outside = celestia_types::MerkleProof {
        index: merkle.index,
        total: merkle.total,
        leaf_hash: merkle.leaf_hash,
        aunts: merkle.aunts.clone(),
    };
    outside.verify(leaf, *root).is_ok()
}

/// Decodes a `celestia_types::ShareProof` with `bincode::deserialize` and
/// reads `total` of the first of its row proofs.
///
/// Not proved: that the number returned is the one that
/// [`decoded_tree_size`] names, and that nothing is returned exactly where
/// the bytes do not decode or the proof holds no row proof.
#[verifier::external_body]
pub(crate) fn share_proof_tree_size(share_proof: &[u8]) -> (r: Option<usize>)
    ensures
        match r {
            Some(leaves) => decoded_tree_size(share_proof@) == Some(leaves as nat),
            None => decoded_tree_size(share_proof@) is None,
        },
{
    match bincode::deserialize::<celestia_types::ShareProof>(share_proof) {
        Ok(decoded) => match decoded.row_proof.proofs().first() {
            Some(first) => Some(first.total),
            None => None,
        },
        Err(_) => None,
    }
}

/// Decodes a `celestia_types::ShareProof` with `bincode::deserialize` and
/// calls its `verify` with the data root as a SHA-256 hash.
///
/// Not proved: that the answer is the one that [`share_proof_holds`] names;
/// bytes that do not decode count as a proof that does not hold. Proofs for a
/// tree of more than [`MAX_TREE_LEAVES`] leaves are left out: the outside
/// function multiplies the number of a row by a quarter of the tree's size
/// in 64 bits.
#[verifier::external_body]
pub(crate) fn verify_share_proof(share_proof: &[u8], data_root: &B256) -> (r: bool)
    requires
        tree_size_bounded(decoded_tree_size(share_proof@)),
    ensures
        r == share_proof_holds(share_proof@, data_root@),
{
    match bincode::deserialize::<celestia_types::ShareProof>(share_proof) {
        Ok(decoded) => decoded.verify(celestia_types::hash::Hash::Sha256(*data_root)).is_ok(),
        Err(_) => false,
    }
}

/// Checks an encoded share proof against the data root: whether it speaks of
/// a tree of bounded size and shows that its shares are in the data square
/// with that root. A proof for a larger tree is no proof.
pub fn check_share_proof(share_proof: &[u8], data_root: &B256) -> (r: bool)
    ensures
        r == share_proof_accepted(share_proof@, data_root@),
{
    match share_proof_tree_size(share_proof) {
        Some(leaves) => {
            if leaves as u64 > MAX_TREE_LEAVES {
                return false;
            }
        },
        None => {},
    }
    verify_share_proof(share_proof, data_root)
}

impl MerkleProofView {
    /// Whether the proof shows that `leaf` is in the tree with root `root`.
    pub open spec fn holds(self, leaf: Seq<u8>, root: Seq<u8>) -> bool {
        self.total <= max_leaves() && merkle_proof_holds(
            self.index,
            self.total,
            self.leaf_hash,
            self.aunts,
            leaf,
            root,
        )
    }

    /// The proof's encoding: index, total, leaf hash, aunts.
    pub open spec fn encoding(self) -> Seq<u8> {
        enc_u64(self.index as u64) + (enc_u64(self.total as u64) + (self.leaf_hash + enc_words(
            self.aunts,
        )))
    }

    /// Whether the proof is the view of some [`MerkleProof`].
    pub open spec fn wf(self) -> bool {
        &&& self.index <= usize::MAX
        &&& self.total <= usize::MAX
        &&& self.leaf_hash.len() == 32
        &&& self.aunts.len() <= usize::MAX
        &&& crate::codec::all_words(self.aunts)
    }
}

/// Reads a Merkle proof off the front of `s`.
pub open spec fn dec_merkle(s: Seq<u8>) -> Option<(MerkleProofView, Seq<u8>)> {
    match dec_u64(s) {
        Some((index, s1)) => match dec_u64(s1) {
            Some((total, s2)) => match dec_word(s2) {
                Some((leaf_hash, s3)) => match dec_words(s3) {
                    Some((aunts, s4)) => if index <= usize::MAX && total <= usize::MAX {
                        Some(
                            (
                                MerkleProofView {
                                    index: index as nat,
                                    total: total as nat,
                                    leaf_hash,
                                    aunts,
                                },
                                s4,
                            ),
                        )
                    } else {
                        None
                    },
                    None => None,
                },
                None => None,
            },
            None => None,
        },
        None => None,
    }
}

/// Decoding an encoded Merkle proof gives the proof and what followed it.
pub proof fn lemma_dec_enc_merkle(m: MerkleProofView, rest: Seq<u8>)
    requires
        m.wf(),
    ensures
        dec_merkle(m.encoding() + rest) == Some((m, rest)),
{
    let s3 = enc_words(m.aunts) + rest;
    let s2 = m.leaf_hash + s3;
    let s1 = enc_u64(m.total as u64) + s2;
    assert(m.encoding() + rest =~= enc_u64(m.index as u64) + s1);
    lemma_dec_enc_u64(m.index as u64, s1);
    lemma_dec_enc_u64(m.total as u64, s2);
    lemma_dec_enc_word(m.leaf_hash, s3);
    lemma_dec_enc_words(m.aunts, rest);
}

/// A Merkle proof can be decoded only from its own encoding.
pub proof fn lemma_enc_dec_merkle(s: Seq<u8>)
    requires
        dec_merkle(s) is Some,
    ensures
        dec_merkle(s).unwrap().0.encoding() + dec_merkle(s).unwrap().1 == s,
{
    let m = dec_merkle(s).unwrap().0;
    let rest = dec_merkle(s).unwrap().1;
    let s1 = dec_u64(s).unwrap().1;
    let s2 = dec_u64(s1).unwrap().1;
    let s3 = dec_word(s2).unwrap().1;
    lemma_enc_dec_u64(s);
    lemma_enc_dec_u64(s1);
    lemma_enc_dec_word(s2);
    lemma_enc_dec_words(s3);
    let a = enc_u64(m.index as u64);
    let b = enc_u64(m.total as u64);
    let c = m.leaf_hash;
    let d = enc_words(m.aunts);
    assert(a + s1 == s);
    assert(b + s2 == s1);
    assert(c + s3 == s2);
    assert(d + rest == s3);
    lemma_concat_assoc(c, d, rest);
    lemma_concat_assoc(b, c + d, rest);
    lemma_concat_assoc(a, b + (c + d), rest);
}

impl MerkleProof {
    /// Every proof held in memory has a view that can be encoded.
    pub proof fn lemma_wf(&self)
        ensures
            self@.wf(),
    {
        assert(self.aunts.len() == self.aunts@.len());
        assert forall|i: int| 0 <= i < self@.aunts.len() implies (#[trigger] self@.aunts[i]).len()
            == 32 by {
            assert(self@.aunts[i] == self.aunts@[i]@);
        }
    }

    /// Whether the proof shows that `leaf` is a leaf of the tree with root `root`.
    pub fn verify(&self, leaf: &[u8], root: &B256) -> (r: bool)
        ensures
            r == self@.holds(leaf@, root@),
    {
        if self.total > usize::MAX / 2 + 1 {
            return false;
        }
        verify_merkle_proof(self, leaf, root)
    }

    /// Appends the proof's encoding to `out`.
    pub fn write(&self, out: &mut Vec<u8>)
        ensures
            final(out)@ == old(out)@ + self@.encoding(),
            self@.wf(),
    {
        put_u64(out, self.index as u64);
        put_u64(out, self.total as u64);
        put_word(out, &self.leaf_hash);
        put_words(out, &self.aunts);
        proof {
            self.lemma_wf();
        }
        assert(out@ =~= old(out)@ + self@.encoding());
    }

    /// Reads the proof encoded at `pos`; gives it with the position after it.
    pub fn read(data: &[u8], pos: usize) -> (r: Option<(MerkleProof, usize)>)
        requires
            pos <= data@.len(),
        ensures
            match r {
                Some((m, next)) => pos <= next <= data@.len() && dec_merkle(
                    data@.skip(pos as int),
                ) == Some((m@, data@.skip(next as int))),
                None => dec_merkle(data@.skip(pos as int)) is None,
            },
    {
        let (index, at) = match take_u64(data, pos) {
            Some(pair) => pair,
            None => {
                return None;
            },
        };
        let (total, at) = match take_u64(data, at) {
            Some(pair) => pair,
            None => {
                return None;
            },
        };
        let (leaf_hash, at) = match take_word(data, at) {
            Some(pair) => pair,
            None => {
                return None;
            },
        };
        let (aunts, at) = match take_words(data, at) {
            Some(pair) => pair,
            None => {
                return None;
            },
        };
        if index > usize::MAX as u64 || total > usize::MAX as u64 {
            return None;
        }
        Some((MerkleProof { index: index as usize, total: total as usize, leaf_hash, aunts }, at))
    }
}

} // verus!
