//! The fault-proof client's own decisions: when a claim is refused before
//! derivation, when derivation is skipped, and when its result is refused.
use crate::bytes::{bytes_eq, word_at, B256};
use crate::provider::BootInfo;
use vstd::prelude::*;

verus! {

/// Why the fault-proof program did not accept the claim.
#[derive(Clone, Copy, Debug, PartialEq, Eq)]
pub enum FaultProofProgramError {
    /// The claim is wrong: the output root that was found, or agreed on, and
    /// the one that was claimed.
    InvalidClaim(B256, B256),
}

/// What the client does after it has read the boot info and the safe head.
#[derive(Clone, Copy, Debug, PartialEq, Eq, Structural)]
pub enum Prologue {
    /// The claimed output root is the agreed one: there is nothing to derive.
    TraceExtension,
    /// Derive and execute up to the claimed block.
    Derive,
}

/// The length of the preimage of an L2 output root.
pub const OUTPUT_PREIMAGE_LEN: usize = 128;

/// The hash of the L2 safe head: the last 32 bytes of the 128-byte preimage
/// of the agreed L2 output root.
pub fn safe_head_hash(output_preimage: &[u8; 128]) -> (r: B256)
    ensures
        r@ == output_preimage@.subrange(96, 128),
{
    word_at(output_preimage.as_slice(), 96)
}

/// Decides what the client does before any derivation.
///
/// A claim about a block below the safe head is invalid, whatever the roots
/// are. Otherwise a claimed root that equals the agreed one needs no
/// derivation, and any other claim is derived.
pub fn prologue(
    boot: &BootInfo,
    safe_head_number: u64,
) -> (r: Result<Prologue, FaultProofProgramError>)
    ensures
        boot.claimed_l2_block_number < safe_head_number ==> r == Err::<
            Prologue,
            FaultProofProgramError,
        >(
            FaultProofProgramError::InvalidClaim(
                boot.agreed_l2_output_root,
                boot.claimed_l2_output_root,
            ),
        ),
        boot.claimed_l2_block_number >= safe_head_number && boot.agreed_l2_output_root@
            == boot.claimed_l2_output_root@ ==> r == Ok::<Prologue, FaultProofProgramError>(
            Prologue::TraceExtension,
        ),
        boot.claimed_l2_block_number >= safe_head_number && boot.agreed_l2_output_root@
            != boot.claimed_l2_output_root@ ==> r == Ok::<Prologue, FaultProofProgramError>(
            Prologue::Derive,
        ),
{
    if boot.claimed_l2_block_number < safe_head_number {
        return Err(
            FaultProofProgramError::InvalidClaim(
                boot.agreed_l2_output_root,
                boot.claimed_l2_output_root,
            ),
        );
    }
    if bytes_eq(boot.agreed_l2_output_root.as_slice(), boot.claimed_l2_output_root.as_slice()) {
        return Ok(Prologue::TraceExtension);
    }
    Ok(Prologue::Derive)
}

/// Holds the output root that derivation produced against the claim: the
/// claim is valid exactly when the two are the same.
pub fn epilogue(boot: &BootInfo, output_root: B256) -> (r: Result<(), FaultProofProgramError>)
    ensures
        output_root@ == boot.claimed_l2_output_root@ ==> r is Ok,
        output_root@ != boot.claimed_l2_output_root@ ==> r == Err::<(), FaultProofProgramError>(
            FaultProofProgramError::InvalidClaim(output_root, boot.claimed_l2_output_root),
        ),
{
    if !bytes_eq(output_root.as_slice(), boot.claimed_l2_output_root.as_slice()) {
        return Err(FaultProofProgramError::InvalidClaim(output_root, boot.claimed_l2_output_root));
    }
    Ok(())
}

} // verus!
