//! Preimage-oracle keys, built by `kona_preimage`.
use crate::bytes::B256;
use kona_preimage::{PreimageKey, PreimageKeyType};
use vstd::prelude::*;

verus! {

/// The type byte of a global generic preimage key.
pub const GLOBAL_GENERIC_KEY_TYPE: u8 = 3;

/// The global generic key made from `digest`: the type byte, then the 31
/// low-order bytes of the digest.
pub open spec fn global_generic_key(digest: Seq<u8>) -> Seq<u8> {
    seq![GLOBAL_GENERIC_KEY_TYPE] + digest.skip(1)
}

/// Calls `kona_preimage::PreimageKey::new` with the key type
/// `GlobalGeneric` and renders the key as 32 bytes.
///
/// Not proved: that the rendered key is the type byte 3 followed by the
/// digest's last 31 bytes.
#[verifier::external_body]
pub(crate) fn global_generic_preimage_key(digest: &B256) -> (r: B256)
    ensures
        r@ == global_generic_key(digest@),
{
    PreimageKey::new(*digest, PreimageKeyType::GlobalGeneric).into()
}

} // verus!
