//! The Blobstream proof bundle: everything the verifier needs besides the
//! blob itself, and its binary format.
use crate::bytes::B256;
use crate::codec::{
    all_sized, dec_bytes, dec_list, dec_u64, dec_word, enc_bytes, enc_list, enc_u64, items_view,
    lemma_concat_assoc, lemma_dec_enc_bytes, lemma_dec_enc_list, lemma_dec_enc_u64,
    lemma_dec_enc_word, lemma_enc_dec_bytes, lemma_enc_dec_list, lemma_enc_dec_u64,
    lemma_enc_dec_word, put_bytes, put_list, put_u64, put_word, take_bytes, take_list, take_u64,
    take_word,
};
use crate::proofs::{
    dec_merkle, lemma_dec_enc_merkle, lemma_enc_dec_merkle, MerkleProof, MerkleProofView,
};
use crate::uint::U256;
use vstd::prelude::*;

verus! {

/// The version byte that every encoded bundle and payload starts with.
pub const FORMAT_VERSION: u8 = 1;

/// Why bytes were not accepted as an encoded bundle or payload.
#[derive(Clone, Copy, Debug, PartialEq, Eq, Structural)]
pub enum PayloadError {
    /// The bytes start with another version byte than [`FORMAT_VERSION`].
    UnknownVersion,
    /// The bytes end before the record does, or a count in them is too large.
    Truncated,
    /// Bytes follow the record.
    TrailingBytes,
}

impl PayloadError {
    /// The words in which the error is reported.
    pub open spec fn text(self) -> Seq<char> {
        match self {
            PayloadError::UnknownVersion => "the payload has an unknown format version"@,
            PayloadError::Truncated => "the payload ends before its record does"@,
            PayloadError::TrailingBytes => "bytes follow the payload's record"@,
        }
    }

    /// The words in which the error is reported.
    pub fn message(&self) -> (r: &'static str)
        ensures
            r@ == self.text(),
    {
        match self {
            PayloadError::UnknownVersion => "the payload has an unknown format version",
            PayloadError::Truncated => "the payload ends before its record does",
            PayloadError::TrailingBytes => "bytes follow the payload's record",
        }
    }
}

/// A structure containing the proofs that go with a Celestia blob.
#[derive(Clone, Debug, PartialEq, Eq)]
pub struct BlobstreamProof {
    /// The data root to verify the proof against
    pub data_root: B256,
    /// The data commitment from Blobstream to verify against
    pub data_commitment: B256,
    /// The Data Root Tuple Inclusion proof
    pub data_root_tuple_proof: MerkleProof,
    /// The proof for the blob's inclusion, as `celestia_types` encodes it
    pub share_proof: Vec<u8>,
    /// The proof_nonce in blobstream
    pub proof_nonce: U256,
    /// The storage root to verify against
    pub storage_root: B256,
    /// The storage proof for the state_dataCommitments mapping slot in Blobstream
    pub storage_proof: Vec<Vec<u8>>,
    /// The account proof for the blobstream address
    pub account_proof: Vec<Vec<u8>>,
    /// The balance to verify against the blobstream address
    pub blobstream_balance: U256,
    /// The nonce to verify against the blobstream address
    pub blobstream_nonce: u64,
    /// The code hash to verify against the blobstream address
    pub blobstream_code_hash: B256,
    /// The RLP encoding of the block header to verify against the l1 head
    pub block_header: Vec<u8>,
}

/// A proof bundle as a mathematical value.
pub struct ProofView {
    pub data_root: Seq<u8>,
    pub data_commitment: Seq<u8>,
    pub data_root_tuple_proof: MerkleProofView,
    pub share_proof: Seq<u8>,
    pub proof_nonce: Seq<u8>,
    pub storage_root: Seq<u8>,
    pub storage_proof: Seq<Seq<u8>>,
    pub account_proof: Seq<Seq<u8>>,
    pub blobstream_balance: Seq<u8>,
    pub blobstream_nonce: u64,
    pub blobstream_code_hash: Seq<u8>,
    pub block_header: Seq<u8>,
}

impl View for BlobstreamProof {
    type V = ProofView;

    open spec fn view(&self) -> ProofView {
        ProofView {
            data_root: self.data_root@,
            data_commitment: self.data_commitment@,
            data_root_tuple_proof: self.data_root_tuple_proof@,
            share_proof: self.share_proof@,
            proof_nonce: self.proof_nonce.be@,
            storage_root: self.storage_root@,
            storage_proof: items_view(self.storage_proof@),
            account_proof: items_view(self.account_proof@),
            blobstream_balance: self.blobstream_balance.be@,
            blobstream_nonce: self.blobstream_nonce,
            blobstream_code_hash: self.blobstream_code_hash@,
            block_header: self.block_header@,
        }
    }
}

impl ProofView {
    /// Whether the bundle is the view of some [`BlobstreamProof`].
    pub open spec fn wf(self) -> bool {
        &&& self.data_root.len() == 32
        &&& self.data_commitment.len() == 32
        &&& self.data_root_tuple_proof.wf()
        &&& self.share_proof.len() <= usize::MAX
        &&& self.proof_nonce.len() == 32
        &&& self.storage_root.len() == 32
        &&& self.storage_proof.len() <= usize::MAX
        &&& all_sized(self.storage_proof)
        &&& self.account_proof.len() <= usize::MAX
        &&& all_sized(self.account_proof)
        &&& self.blobstream_balance.len() == 32
        &&& self.blobstream_code_hash.len() == 32
        &&& self.block_header.len() <= usize::MAX
    }

    /// The last six fields of the record.
    pub open spec fn encoding_tail(self) -> Seq<u8> {
        enc_list(self.storage_proof) + (enc_list(self.account_proof) + (self.blobstream_balance
            + (enc_u64(self.blobstream_nonce) + (self.blobstream_code_hash + enc_bytes(
            self.block_header,
        )))))
    }

    /// The record: the fields in the order of their declaration, words and
    /// numbers as they are, strings and lists with their length before them.
    pub open spec fn encoding(self) -> Seq<u8> {
        self.data_root + (self.data_commitment + (self.data_root_tuple_proof.encoding() + (
        enc_bytes(self.share_proof) + (self.proof_nonce + (self.storage_root
            + self.encoding_tail())))))
    }
}

/// Reads the last six fields of a bundle off the front of `s`.
pub open spec fn dec_proof_tail(head: ProofView, s: Seq<u8>) -> Option<(ProofView, Seq<u8>)> {
    match dec_list(s) {
        Some((storage_proof, s1)) => match dec_list(s1) {
            Some((account_proof, s2)) => match dec_word(s2) {
                Some((blobstream_balance, s3)) => match dec_u64(s3) {
                    Some((blobstream_nonce, s4)) => match dec_word(s4) {
                        Some((blobstream_code_hash, s5)) => match dec_bytes(s5) {
                            Some((block_header, s6)) => Some(
                                (
                                    ProofView {
                                        storage_proof,
                                        account_proof,
                                        blobstream_balance,
                                        blobstream_nonce,
                                        blobstream_code_hash,
                                        block_header,
                                        ..head
                                    },
                                    s6,
                                ),
                            ),
                            None => None,
                        },
                        None => None,
                    },
                    None => None,
                },
                None => None,
            },
            None => None,
        },
        None => None,
    }
}

/// Reads a bundle off the front of `s`.
pub open spec fn dec_proof(s: Seq<u8>) -> Option<(ProofView, Seq<u8>)> {
    match dec_word(s) {
        Some((data_root, s1)) => match dec_word(s1) {
            Some((data_commitment, s2)) => match dec_merkle(s2) {
                Some((data_root_tuple_proof, s3)) => match dec_bytes(s3) {
                    Some((share_proof, s4)) => match dec_word(s4) {
                        Some((proof_nonce, s5)) => match dec_word(s5) {
                            Some((storage_root, s6)) => dec_proof_tail(
                                ProofView {
                                    data_root,
                                    data_commitment,
                                    data_root_tuple_proof,
                                    share_proof,
                                    proof_nonce,
                                    storage_root,
                                    storage_proof: Seq::empty(),
                                    account_proof: Seq::empty(),
                                    blobstream_balance: Seq::empty(),
                                    blobstream_nonce: 0,
                                    blobstream_code_hash: Seq::empty(),
                                    block_header: Seq::empty(),
                                },
                                s6,
                            ),
                            None => None,
                        },
                        None => None,
                    },
                    None => None,
                },
                None => None,
            },
            None => None,
        },
        None => None,
    }
}

/// The bytes of a bundle: the version byte, then the record.
pub open spec fn proof_bytes(v: ProofView) -> Seq<u8> {
    seq![FORMAT_VERSION] + v.encoding()
}

/// What decoding `bytes` as a bundle gives.
pub open spec fn proof_from_bytes(bytes: Seq<u8>) -> Result<ProofView, PayloadError> {
    if bytes.len() == 0 {
        Err(PayloadError::Truncated)
    } else if bytes[0] != FORMAT_VERSION {
        Err(PayloadError::UnknownVersion)
    } else {
        match dec_proof(bytes.skip(1)) {
            Some((v, rest)) => if rest.len() == 0 {
                Ok(v)
            } else {
                Err(PayloadError::TrailingBytes)
            },
            None => Err(PayloadError::Truncated),
        }
    }
}

/// Decoding the last six encoded fields gives them and what followed.
pub proof fn lemma_dec_enc_proof_tail(head: ProofView, v: ProofView, rest: Seq<u8>)
    requires
        v.wf(),
        head.data_root == v.data_root,
        head.data_commitment == v.data_commitment,
        head.data_root_tuple_proof == v.data_root_tuple_proof,
        head.share_proof == v.share_proof,
        head.proof_nonce == v.proof_nonce,
        head.storage_root == v.storage_root,
    ensures
        dec_proof_tail(head, v.encoding_tail() + rest) == Some((v, rest)),
{
    let s5 = enc_bytes(v.block_header) + rest;
    let s4 = v.blobstream_code_hash + s5;
    let s3 = enc_u64(v.blobstream_nonce) + s4;
    let s2 = v.blobstream_balance + s3;
    let s1 = enc_list(v.account_proof) + s2;
    assert(v.encoding_tail() + rest =~= enc_list(v.storage_proof) + s1);
    lemma_dec_enc_list(v.storage_proof, s1);
    lemma_dec_enc_list(v.account_proof, s2);
    lemma_dec_enc_word(v.blobstream_balance, s3);
    lemma_dec_enc_u64(v.blobstream_nonce, s4);
    lemma_dec_enc_word(v.blobstream_code_hash, s5);
    lemma_dec_enc_bytes(v.block_header, rest);
}

/// Decoding an encoded bundle gives the bundle and what followed it.
pub proof fn lemma_dec_enc_proof(v: ProofView, rest: Seq<u8>)
    requires
        v.wf(),
    ensures
        dec_proof(v.encoding() + rest) == Some((v, rest)),
{
    let s6 = v.encoding_tail() + rest;
    let s5 = v.storage_root + s6;
    let s4 = v.proof_nonce + s5;
    let s3 = enc_bytes(v.share_proof) + s4;
    let s2 = v.data_root_tuple_proof.encoding() + s3;
    let s1 = v.data_commitment + s2;
    assert(v.encoding() + rest =~= v.data_root + s1);
    lemma_dec_enc_word(v.data_root, s1);
    lemma_dec_enc_word(v.data_commitment, s2);
    lemma_dec_enc_merkle(v.data_root_tuple_proof, s3);
    lemma_dec_enc_bytes(v.share_proof, s4);
    lemma_dec_enc_word(v.proof_nonce, s5);
    lemma_dec_enc_word(v.storage_root, s6);
    let head = ProofView {
        storage_proof: Seq::empty(),
        account_proof: Seq::empty(),
        blobstream_balance: Seq::empty(),
        blobstream_nonce: 0,
        blobstream_code_hash: Seq::empty(),
        block_header: Seq::empty(),
        ..v
    };
    lemma_dec_enc_proof_tail(head, v, rest);
}

/// Decoding the bytes of a bundle gives the bundle back.
pub proof fn lemma_proof_round_trip(v: ProofView)
    requires
        v.wf(),
    ensures
        proof_from_bytes(proof_bytes(v)) == Ok::<ProofView, PayloadError>(v),
{
    lemma_dec_enc_proof(v, Seq::empty());
    assert(proof_bytes(v).skip(1) =~= v.encoding() + Seq::<u8>::empty());
}

/// The last six fields can be decoded only from their own encoding.
pub proof fn lemma_enc_dec_proof_tail(head: ProofView, s: Seq<u8>)
    requires
        dec_proof_tail(head, s) is Some,
    ensures
        dec_proof_tail(head, s).unwrap().0.encoding_tail() + dec_proof_tail(head, s).unwrap().1
            == s,
        dec_proof_tail(head, s).unwrap().0.data_root == head.data_root,
        dec_proof_tail(head, s).unwrap().0.data_commitment == head.data_commitment,
        dec_proof_tail(head, s).unwrap().0.data_root_tuple_proof == head.data_root_tuple_proof,
        dec_proof_tail(head, s).unwrap().0.share_proof == head.share_proof,
        dec_proof_tail(head, s).unwrap().0.proof_nonce == head.proof_nonce,
        dec_proof_tail(head, s).unwrap().0.storage_root == head.storage_root,
{
    let v = dec_proof_tail(head, s).unwrap().0;
    let rest = dec_proof_tail(head, s).unwrap().1;
    let s1 = dec_list(s).unwrap().1;
    let s2 = dec_list(s1).unwrap().1;
    let s3 = dec_word(s2).unwrap().1;
    let s4 = dec_u64(s3).unwrap().1;
    let s5 = dec_word(s4).unwrap().1;
    lemma_enc_dec_list(s);
    lemma_enc_dec_list(s1);
    lemma_enc_dec_word(s2);
    lemma_enc_dec_u64(s3);
    lemma_enc_dec_word(s4);
    lemma_enc_dec_bytes(s5);
    let a = enc_list(v.storage_proof);
    let b = enc_list(v.account_proof);
    let c = v.blobstream_balance;
    let d = enc_u64(v.blobstream_nonce);
    let e = v.blobstream_code_hash;
    let f = enc_bytes(v.block_header);
    assert(a + s1 == s);
    assert(b + s2 == s1);
    assert(c + s3 == s2);
    assert(d + s4 == s3);
    assert(e + s5 == s4);
    assert(f + rest == s5);
    lemma_concat_assoc(e, f, rest);
    lemma_concat_assoc(d, e + f, rest);
    lemma_concat_assoc(c, d + (e + f), rest);
    lemma_concat_assoc(b, c + (d + (e + f)), rest);
    lemma_concat_assoc(a, b + (c + (d + (e + f))), rest);
}

/// A bundle can be decoded only from its own encoding.
pub proof fn lemma_enc_dec_proof(s: Seq<u8>)
    requires
        dec_proof(s) is Some,
    ensures
        dec_proof(s).unwrap().0.encoding() + dec_proof(s).unwrap().1 == s,
{
    let v = dec_proof(s).unwrap().0;
    let rest = dec_proof(s).unwrap().1;
    let s1 = dec_word(s).unwrap().1;
    let s2 = dec_word(s1).unwrap().1;
    let s3 = dec_merkle(s2).unwrap().1;
    let s4 = dec_bytes(s3).unwrap().1;
    let s5 = dec_word(s4).unwrap().1;
    let s6 = dec_word(s5).unwrap().1;
    lemma_enc_dec_word(s);
    lemma_enc_dec_word(s1);
    lemma_enc_dec_merkle(s2);
    lemma_enc_dec_bytes(s3);
    lemma_enc_dec_word(s4);
    lemma_enc_dec_word(s5);
    let head = ProofView {
        data_root: dec_word(s).unwrap().0,
        data_commitment: dec_word(s1).unwrap().0,
        data_root_tuple_proof: dec_merkle(s2).unwrap().0,
        share_proof: dec_bytes(s3).unwrap().0,
        proof_nonce: dec_word(s4).unwrap().0,
        storage_root: dec_word(s5).unwrap().0,
        storage_proof: Seq::empty(),
        account_proof: Seq::empty(),
        blobstream_balance: Seq::empty(),
        blobstream_nonce: 0,
        blobstream_code_hash: Seq::empty(),
        block_header: Seq::empty(),
    };
    assert(dec_proof(s) == dec_proof_tail(head, s6));
    lemma_enc_dec_proof_tail(head, s6);
    let a = v.data_root;
    let b = v.data_commitment;
    let c = v.data_root_tuple_proof.encoding();
    let d = enc_bytes(v.share_proof);
    let e = v.proof_nonce;
    let f = v.storage_root;
    let g = v.encoding_tail();
    assert(a + s1 == s);
    assert(b + s2 == s1);
    assert(c + s3 == s2);
    assert(d + s4 == s3);
    assert(e + s5 == s4);
    assert(f + s6 == s5);
    assert(g + rest == s6);
    lemma_concat_assoc(f, g, rest);
    lemma_concat_assoc(e, f + g, rest);
    lemma_concat_assoc(d, e + (f + g), rest);
    lemma_concat_assoc(c, d + (e + (f + g)), rest);
    lemma_concat_assoc(b, c + (d + (e + (f + g))), rest);
    lemma_concat_assoc(a, b + (c + (d + (e + (f + g)))), rest);
}

/// The format is canonical: bytes that decode as a bundle are the bundle's
/// own bytes, so no two byte strings stand for the same bundle.
pub proof fn lemma_proof_bytes_canonical(bytes: Seq<u8>)
    requires
        proof_from_bytes(bytes) is Ok,
    ensures
        proof_bytes(proof_from_bytes(bytes).unwrap()) == bytes,
{
    lemma_enc_dec_proof(bytes.skip(1));
    let v = proof_from_bytes(bytes).unwrap();
    assert(v.encoding() + Seq::<u8>::empty() =~= v.encoding());
    assert(seq![FORMAT_VERSION] + bytes.skip(1) =~= bytes);
}

impl BlobstreamProof {
    /// Create a new BlobstreamProof instance
    pub fn new(
        data_root: B256,
        data_commitment: B256,
        data_root_tuple_proof: MerkleProof,
        share_proof: Vec<u8>,
        proof_nonce: U256,
        storage_root: B256,
        storage_proof: Vec<Vec<u8>>,
        account_proof: Vec<Vec<u8>>,
        blobstream_balance: U256,
        blobstream_nonce: u64,
        blobstream_code_hash: B256,
        block_header: Vec<u8>,
    ) -> (r: Self)
        ensures
            r.data_root == data_root,
            r.data_commitment == data_commitment,
            r.data_root_tuple_proof == data_root_tuple_proof,
            r.share_proof == share_proof,
            r.proof_nonce == proof_nonce,
            r.storage_root == storage_root,
            r.storage_proof == storage_proof,
            r.account_proof == account_proof,
            r.blobstream_balance == blobstream_balance,
            r.blobstream_nonce == blobstream_nonce,
            r.blobstream_code_hash == blobstream_code_hash,
            r.block_header == block_header,
    {
        Self {
            data_root,
            data_commitment,
            data_root_tuple_proof,
            share_proof,
            proof_nonce,
            storage_root,
            storage_proof,
            account_proof,
            blobstream_balance,
            blobstream_nonce,
            blobstream_code_hash,
            block_header,
        }
    }

    /// Every bundle held in memory has a view that can be encoded.
    pub proof fn lemma_wf(&self)
        ensures
            self@.wf(),
    {
        self.data_root_tuple_proof.lemma_wf();
        assert(self.share_proof.len() == self.share_proof@.len());
        assert(self.block_header.len() == self.block_header@.len());
        assert(self.storage_proof.len() == self.storage_proof@.len());
        assert(self.account_proof.len() == self.account_proof@.len());
        assert forall|i: int| 0 <= i < self@.storage_proof.len() implies (
        #[trigger] self@.storage_proof[i]).len() <= u64::MAX by {
            assert(self.storage_proof@[i].len() == self.storage_proof@[i]@.len());
        }
        assert forall|i: int| 0 <= i < self@.account_proof.len() implies (
        #[trigger] self@.account_proof[i]).len() <= u64::MAX by {
            assert(self.account_proof@[i].len() == self.account_proof@[i]@.len());
        }
    }

    /// Appends the record to `out`.
    pub fn write(&self, out: &mut Vec<u8>)
        ensures
            final(out)@ == old(out)@ + self@.encoding(),
    {
        put_word(out, &self.data_root);
        put_word(out, &self.data_commitment);
        self.data_root_tuple_proof.write(out);
        put_bytes(out, self.share_proof.as_slice());
        put_word(out, &self.proof_nonce.be);
        put_word(out, &self.storage_root);
        let ghost mid = out@;
        put_list(out, &self.storage_proof);
        put_list(out, &self.account_proof);
        put_word(out, &self.blobstream_balance.be);
        put_u64(out, self.blobstream_nonce);
        put_word(out, &self.blobstream_code_hash);
        put_bytes(out, self.block_header.as_slice());
        proof {
            assert(out@ =~= mid + self@.encoding_tail());
            assert(out@ =~= old(out)@ + self@.encoding());
        }
    }

    /// Reads the record at `pos`; gives the bundle with the position after it.
    pub fn read(data: &[u8], pos: usize) -> (r: Option<(BlobstreamProof, usize)>)
        requires
            pos <= data@.len(),
        ensures
            match r {
                Some((p, next)) => pos <= next <= data@.len() && dec_proof(
                    data@.skip(pos as int),
                ) == Some((p@, data@.skip(next as int))),
                None => dec_proof(data@.skip(pos as int)) is None,
            },
    {
        let (data_root, at) = match take_word(data, pos) {
            Some(pair) => pair,
            None => {
                return None;
            },
        };
        let (data_commitment, at) = match take_word(data, at) {
            Some(pair) => pair,
            None => {
                return None;
            },
        };
        let (data_root_tuple_proof, at) = match MerkleProof::read(data, at) {
            Some(pair) => pair,
            None => {
                return None;
            },
        };
        let (share_proof, at) = match take_bytes(data, at) {
            Some(pair) => pair,
            None => {
                return None;
            },
        };
        let (proof_nonce, at) = match take_word(data, at) {
            Some(pair) => pair,
            None => {
                return None;
            },
        };
        let (storage_root, at) = match take_word(data, at) {
            Some(pair) => pair,
            None => {
                return None;
            },
        };
        let (storage_proof, at) = match take_list(data, at) {
            Some(pair) => pair,
            None => {
                return None;
            },
        };
        let (account_proof, at) = match take_list(data, at) {
            Some(pair) => pair,
            None => {
                return None;
            },
        };
        let (blobstream_balance, at) = match take_word(data, at) {
            Some(pair) => pair,
            None => {
                return None;
            },
        };
        let (blobstream_nonce, at) = match take_u64(data, at) {
            Some(pair) => pair,
            None => {
                return None;
            },
        };
        let (blobstream_code_hash, at) = match take_word(data, at) {
            Some(pair) => pair,
            None => {
                return None;
            },
        };
        let (block_header, at) = match take_bytes(data, at) {
            Some(pair) => pair,
            None => {
                return None;
            },
        };
        let bundle = BlobstreamProof {
            data_root,
            data_commitment,
            data_root_tuple_proof,
            share_proof,
            proof_nonce: U256::from_be_bytes(proof_nonce),
            storage_root,
            storage_proof,
            account_proof,
            blobstream_balance: U256::from_be_bytes(blobstream_balance),
            blobstream_nonce,
            blobstream_code_hash,
            block_header,
        };
        Some((bundle, at))
    }

    /// Serialize the struct to bytes: the version byte, then the record.
    /// Every bundle can be serialized.
    pub fn to_bytes(&self) -> (r: Result<Vec<u8>, PayloadError>)
        ensures
            r matches Ok(bytes) && bytes@ == proof_bytes(self@),
    {
        let mut bytes: Vec<u8> = Vec::new();
        bytes.push(FORMAT_VERSION);
        self.write(&mut bytes);
        assert(bytes@ =~= proof_bytes(self@));
        Ok(bytes)
    }

    /// Deserialize from bytes back into the struct. The bytes must hold the
    /// version byte and one record, and nothing else.
    pub fn from_bytes(bytes: &[u8]) -> (r: Result<Self, PayloadError>)
        ensures
            match r {
                Ok(p) => proof_from_bytes(bytes@) == Ok::<ProofView, PayloadError>(p@),
                Err(e) => proof_from_bytes(bytes@) == Err::<ProofView, PayloadError>(e),
            },
    {
        if bytes.len() == 0 {
            return Err(PayloadError::Truncated);
        }
        if bytes[0] != FORMAT_VERSION {
            return Err(PayloadError::UnknownVersion);
        }
        match BlobstreamProof::read(bytes, 1) {
            Some((p, next)) => {
                if next == bytes.len() {
                    Ok(p)
                } else {
                    Err(PayloadError::TrailingBytes)
                }
            },
            None => Err(PayloadError::Truncated),
        }
    }
}

/// Serializing a bundle and deserializing the bytes gives the bundle back.
pub proof fn lemma_bundle_round_trip(p: BlobstreamProof)
    ensures
        proof_from_bytes(proof_bytes(p@)) == Ok::<ProofView, PayloadError>(p@),
{
    p.lemma_wf();
    lemma_proof_round_trip(p@);
}

} // verus!
