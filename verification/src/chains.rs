//! The chains on which a canonical Blobstream contract is deployed.
use crate::bytes::Address;
use alloy_chains::NamedChain;
use vstd::prelude::*;

verus! {

/// A chain with a canonical Blobstream deployment.
#[derive(Clone, Copy, Debug, PartialEq, Eq, Structural)]
pub enum BlobstreamChain {
    Mainnet,
    Arbitrum,
    Base,
    Scroll,
    Sepolia,
    ArbitrumSepolia,
    BaseSepolia,
    Holesky,
}

/// The Blobstream chain with the EIP-155 chain id `chain_id`, if there is one.
pub open spec fn chain_of_id(chain_id: u64) -> Option<BlobstreamChain> {
    if chain_id == 1 {
        Some(BlobstreamChain::Mainnet)
    } else if chain_id == 42161 {
        Some(BlobstreamChain::Arbitrum)
    } else if chain_id == 8453 {
        Some(BlobstreamChain::Base)
    } else if chain_id == 534352 {
        Some(BlobstreamChain::Scroll)
    } else if chain_id == 11155111 {
        Some(BlobstreamChain::Sepolia)
    } else if chain_id == 421614 {
        Some(BlobstreamChain::ArbitrumSepolia)
    } else if chain_id == 84532 {
        Some(BlobstreamChain::BaseSepolia)
    } else if chain_id == 17000 {
        Some(BlobstreamChain::Holesky)
    } else {
        None
    }
}

/// Calls `alloy_chains::NamedChain::try_from` on the chain id and keeps the
/// eight chains that have a Blobstream deployment.
///
/// Not proved: that the outside table gives these eight chains the ids listed
/// in [`chain_of_id`], and no other id to any of them.
#[verifier::external_body]
pub(crate) fn named_chain(chain_id: u64) -> (r: Option<BlobstreamChain>)
    ensures
        r == chain_of_id(chain_id),
{
    match NamedChain::try_from(chain_id) {
        Ok(NamedChain::Mainnet) => Some(BlobstreamChain::Mainnet),
        Ok(NamedChain::Arbitrum) => Some(BlobstreamChain::Arbitrum),
        Ok(NamedChain::Base) => Some(BlobstreamChain::Base),
        Ok(NamedChain::Scroll) => Some(BlobstreamChain::Scroll),
        Ok(NamedChain::Sepolia) => Some(BlobstreamChain::Sepolia),
        Ok(NamedChain::ArbitrumSepolia) => Some(BlobstreamChain::ArbitrumSepolia),
        Ok(NamedChain::BaseSepolia) => Some(BlobstreamChain::BaseSepolia),
        Ok(NamedChain::Holesky) => Some(BlobstreamChain::Holesky),
        _ => None,
    }
}

/// The 20 bytes of the Blobstream contract's address on each chain.
pub open spec fn deployment(chain: BlobstreamChain) -> Seq<u8> {
    match chain {
        BlobstreamChain::Mainnet => seq![
            0x7Cu8, 0xf3, 0x87, 0x6F, 0x68, 0x1D, 0xbb, 0x6E, 0xdA, 0x8f,
            0x6F, 0xfC, 0x45, 0xD6, 0x6B, 0x99, 0x6D, 0xf0, 0x8f, 0xAe,
        ],
        BlobstreamChain::Arbitrum | BlobstreamChain::Base => seq![
            0xA8u8, 0x3c, 0xa7, 0x77, 0x5B, 0xc2, 0x88, 0x98, 0x25, 0xBc,
            0xDe, 0xDf, 0xFa, 0x5b, 0x75, 0x8c, 0xf6, 0x9e, 0x87, 0x94,
        ],
        BlobstreamChain::Scroll => seq![
            0x50u8, 0x08, 0xfa, 0x5C, 0xC3, 0x39, 0x7f, 0xaE, 0xa9, 0x0f,
            0xcd, 0xe7, 0x1C, 0x35, 0x94, 0x5d, 0xb6, 0x82, 0x22, 0x18,
        ],
        BlobstreamChain::Sepolia => seq![
            0xF0u8, 0xc6, 0x42, 0x9e, 0xbA, 0xB2, 0xe7, 0xDC, 0x6e, 0x05,
            0xDa, 0xFB, 0x61, 0x12, 0x8b, 0xE2, 0x1f, 0x13, 0xcb, 0x1e,
        ],
        BlobstreamChain::ArbitrumSepolia | BlobstreamChain::BaseSepolia => seq![
            0xc3u8, 0xe2, 0x09, 0xeb, 0x24, 0x5F, 0xd5, 0x9c, 0x85, 0x86,
            0x77, 0x7b, 0x49, 0x9d, 0x6A, 0x66, 0x5D, 0xF3, 0xAB, 0xD2,
        ],
        BlobstreamChain::Holesky => seq![
            0x31u8, 0x5A, 0x04, 0x4c, 0xb9, 0x5e, 0x4d, 0x44, 0xbB, 0xf6,
            0x25, 0x35, 0x85, 0xFb, 0xEb, 0xcd, 0xB6, 0xfb, 0x41, 0xef,
        ],
    }
}

/// The address of the Blobstream contract on `chain`.
pub fn deployment_address(chain: BlobstreamChain) -> (r: Address)
    ensures
        r@ == deployment(chain),
{
    let r: Address = match chain {
        BlobstreamChain::Mainnet => [
            0x7C, 0xf3, 0x87, 0x6F, 0x68, 0x1D, 0xbb, 0x6E, 0xdA, 0x8f,
            0x6F, 0xfC, 0x45, 0xD6, 0x6B, 0x99, 0x6D, 0xf0, 0x8f, 0xAe,
        ],
        BlobstreamChain::Arbitrum | BlobstreamChain::Base => [
            0xA8, 0x3c, 0xa7, 0x77, 0x5B, 0xc2, 0x88, 0x98, 0x25, 0xBc,
            0xDe, 0xDf, 0xFa, 0x5b, 0x75, 0x8c, 0xf6, 0x9e, 0x87, 0x94,
        ],
        BlobstreamChain::Scroll => [
            0x50, 0x08, 0xfa, 0x5C, 0xC3, 0x39, 0x7f, 0xaE, 0xa9, 0x0f,
            0xcd, 0xe7, 0x1C, 0x35, 0x94, 0x5d, 0xb6, 0x82, 0x22, 0x18,
        ],
        BlobstreamChain::Sepolia => [
            0xF0, 0xc6, 0x42, 0x9e, 0xbA, 0xB2, 0xe7, 0xDC, 0x6e, 0x05,
            0xDa, 0xFB, 0x61, 0x12, 0x8b, 0xE2, 0x1f, 0x13, 0xcb, 0x1e,
        ],
        BlobstreamChain::ArbitrumSepolia | BlobstreamChain::BaseSepolia => [
            0xc3, 0xe2, 0x09, 0xeb, 0x24, 0x5F, 0xd5, 0x9c, 0x85, 0x86,
            0x77, 0x7b, 0x49, 0x9d, 0x6A, 0x66, 0x5D, 0xF3, 0xAB, 0xD2,
        ],
        BlobstreamChain::Holesky => [
            0x31, 0x5A, 0x04, 0x4c, 0xb9, 0x5e, 0x4d, 0x44, 0xbB, 0xf6,
            0x25, 0x35, 0x85, 0xFb, 0xEb, 0xcd, 0xB6, 0xfb, 0x41, 0xef,
        ],
    };
    assert(r@ =~= deployment(chain));
    r
}

/// The address that [`blobstream_address`] gives for `chain_id`.
pub open spec fn canonical_address(chain_id: u64) -> Option<Seq<u8>> {
    match chain_of_id(chain_id) {
        Some(chain) => Some(deployment(chain)),
        None => None,
    }
}

/// The canonical Blobstream address for the given chain id, and `None` for
/// every chain without a deployment.
pub fn blobstream_address(chain_id: u64) -> (r: Option<Address>)
    ensures
        match r {
            Some(a) => canonical_address(chain_id) == Some(a@),
            None => canonical_address(chain_id) is None,
        },
{
    match named_chain(chain_id) {
        Some(chain) => Some(deployment_address(chain)),
        None => None,
    }
}

} // verus!
