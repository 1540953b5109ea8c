//! Chain ids with a Blobstream deployment, as a closed enumeration.
use crate::bytes::Address;
use crate::chains::{deployment, deployment_address, BlobstreamChain};
use vstd::prelude::*;

verus! {

/// The chains whose Blobstream deployment the proof service knows.
#[derive(Clone, Copy, Debug, PartialEq, Eq, Structural)]
pub enum BlobstreamChainIds {
    // Mainnets
    EthereumMainnet,
    ArbitrumOne,
    Base,
    // Testnets
    Sepolia,
    ArbitrumSepolia,
    BaseSepolia,
}

impl BlobstreamChainIds {
    /// The chain's EIP-155 chain id.
    pub open spec fn id(self) -> u64 {
        match self {
            Self::EthereumMainnet => 1,
            Self::ArbitrumOne => 42161,
            Self::Base => 8453,
            Self::Sepolia => 11155111,
            Self::ArbitrumSepolia => 421614,
            Self::BaseSepolia => 84532,
        }
    }

    /// The chain as the table of deployments names it.
    pub open spec fn chain(self) -> BlobstreamChain {
        match self {
            Self::EthereumMainnet => BlobstreamChain::Mainnet,
            Self::ArbitrumOne => BlobstreamChain::Arbitrum,
            Self::Base => BlobstreamChain::Base,
            Self::Sepolia => BlobstreamChain::Sepolia,
            Self::ArbitrumSepolia => BlobstreamChain::ArbitrumSepolia,
            Self::BaseSepolia => BlobstreamChain::BaseSepolia,
        }
    }

    /// The chain with the given id, if there is one.
    pub open spec fn of_id(id: u64) -> Option<Self> {
        if id == 1 {
            Some(Self::EthereumMainnet)
        } else if id == 42161 {
            Some(Self::ArbitrumOne)
        } else if id == 8453 {
            Some(Self::Base)
        } else if id == 11155111 {
            Some(Self::Sepolia)
        } else if id == 421614 {
            Some(Self::ArbitrumSepolia)
        } else if id == 84532 {
            Some(Self::BaseSepolia)
        } else {
            None
        }
    }

    /// The chain with the given id, and `None` for every other id.
    pub fn from_u64(id: u64) -> (r: Option<Self>)
        ensures
            r == Self::of_id(id),
            r matches Some(chain) ==> chain.id() == id,
            r is None ==> forall|chain: Self| #[trigger] chain.id() != id,
    {
        match id {
            1 => Some(Self::EthereumMainnet),
            42161 => Some(Self::ArbitrumOne),
            8453 => Some(Self::Base),
            11155111 => Some(Self::Sepolia),
            421614 => Some(Self::ArbitrumSepolia),
            84532 => Some(Self::BaseSepolia),
            _ => None,
        }
    }

    /// The chain's id.
    pub fn to_u64(&self) -> (r: u64)
        ensures
            r == self.id(),
    {
        match self {
            Self::EthereumMainnet => 1,
            Self::ArbitrumOne => 42161,
            Self::Base => 8453,
            Self::Sepolia => 11155111,
            Self::ArbitrumSepolia => 421614,
            Self::BaseSepolia => 84532,
        }
    }

    /// The address of the Blobstream contract on the chain.
    pub fn blostream_address(&self) -> (r: Address)
        ensures
            r@ == deployment(self.chain()),
    {
        match self {
            Self::EthereumMainnet => deployment_address(BlobstreamChain::Mainnet),
            Self::ArbitrumOne => deployment_address(BlobstreamChain::Arbitrum),
            Self::Base => deployment_address(BlobstreamChain::Base),
            Self::Sepolia => deployment_address(BlobstreamChain::Sepolia),
            Self::ArbitrumSepolia => deployment_address(BlobstreamChain::ArbitrumSepolia),
            Self::BaseSepolia => deployment_address(BlobstreamChain::BaseSepolia),
        }
    }
}

/// A chain id names at most one chain, and a chain's own id names the chain.
pub proof fn lemma_ids_distinct(a: BlobstreamChainIds, b: BlobstreamChainIds)
    ensures
        a.id() == b.id() <==> a == b,
        BlobstreamChainIds::of_id(a.id()) == Some(a),
{
}

/// The enumeration and the table of canonical addresses agree wherever the
/// enumeration knows the chain.
pub proof fn lemma_enumeration_agrees(chain: BlobstreamChainIds)
    ensures
        crate::chains::canonical_address(chain.id()) == Some(deployment(chain.chain())),
{
}

} // verus!
