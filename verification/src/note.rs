//! The depositor's private record of a deposit.

use vstd::prelude::*;
use crate::simple_hash::{commitment_spec, digest_eq, generate_commitment};

verus! {

/// What a depositor keeps to redeem a deposit later. It never leaves the
/// depositor: the ledger records the commitment, not the amount.
#[derive(Clone, Copy, Debug)]
pub struct ShieldedNote {
    /// The public commitment.
    pub commitment: [u8; 32],
    /// The hidden amount.
    pub amount: u128,
    /// The asset of the deposit.
    pub asset_id: u32,
    /// The randomness that blinds the commitment.
    pub randomness: [u8; 32],
    /// The nullifier that redeems the deposit.
    pub nullifier: [u8; 32],
}

/// Whether `commitment` is the commitment to the amount, asset and
/// randomness that `note` records.
pub fn verify_note(note: &ShieldedNote, commitment: &[u8; 32]) -> (matches_note: bool)
    ensures
        matches_note == (commitment@ == commitment_spec(
            note.amount,
            note.asset_id,
            note.randomness@,
        )),
{
    let computed = generate_commitment(note.amount, note.asset_id, &note.randomness);
    digest_eq(&computed, commitment)
}

} // verus!
