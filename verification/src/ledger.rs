//! The rules of the ledger that records deposits and redemptions.
//!
//! The ledger itself, with its storage and its events, is outside this
//! library. What it may accept is decided here, from the values that it
//! has read: each function takes what the ledger knows and answers with
//! what it is to write, or with the refusal.

use vstd::prelude::*;

verus! {

/// Largest serialized verifying key that the ledger accepts, in bytes.
pub const MAX_VERIFYING_KEY_LEN: usize = 4096;

/// Refusals of the ledger.
#[derive(Clone, Copy, Debug, PartialEq, Eq, Structural)]
pub enum Error {
    /// The commitment is already recorded.
    CommitmentAlreadyExists,
    /// The nullifier has already been consumed.
    NullifierAlreadyUsed,
    /// The commitment is not recorded.
    CommitmentNotFound,
    /// A proof, a key or a cross-chain deposit that is not acceptable.
    InvalidProof,
    /// A counter is at its limit.
    AmountOverflow,
    /// Randomness that is not acceptable.
    InvalidRandomness,
}

/// What recording a commitment gives: the new number of commitments, or the
/// refusal. A commitment is recorded once; the counter never wraps.
pub open spec fn commitment_decision(already_recorded: bool, commitment_count: u32) -> Result<
    u32,
    Error,
> {
    if already_recorded {
        Err(Error::CommitmentAlreadyExists)
    } else if commitment_count == u32::MAX {
        Err(Error::AmountOverflow)
    } else {
        Ok((commitment_count + 1) as u32)
    }
}

/// Decides whether a commitment may be recorded, given whether the ledger
/// already holds it and how many it holds.
pub fn admit_commitment(already_recorded: bool, commitment_count: u32) -> (decision: Result<
    u32,
    Error,
>)
    ensures
        decision == commitment_decision(already_recorded, commitment_count),
{
    if already_recorded {
        return Err(Error::CommitmentAlreadyExists);
    }
    match commitment_count.checked_add(1) {
        Some(count) => Ok(count),
        None => Err(Error::AmountOverflow),
    }
}

/// Decides whether a nullifier may be consumed: only one that has not been
/// consumed before.
pub fn admit_nullifier(already_used: bool) -> (decision: Result<(), Error>)
    ensures
        already_used ==> decision == Err::<(), Error>(Error::NullifierAlreadyUsed),
        !already_used ==> decision == Ok::<(), Error>(()),
{
    if already_used {
        Err(Error::NullifierAlreadyUsed)
    } else {
        Ok(())
    }
}

/// Decides whether a serialized verifying key of `len` bytes may be stored.
pub fn admit_verifying_key(len: usize) -> (decision: Result<(), Error>)
    ensures
        len <= MAX_VERIFYING_KEY_LEN ==> decision == Ok::<(), Error>(()),
        len > MAX_VERIFYING_KEY_LEN ==> decision == Err::<(), Error>(Error::InvalidProof),
{
    if len <= MAX_VERIFYING_KEY_LEN {
        Ok(())
    } else {
        Err(Error::InvalidProof)
    }
}

/// The local asset id that follows `local_id`, for the registration after
/// the one that takes `local_id`.
pub fn following_asset_id(local_id: u32) -> (decision: Result<u32, Error>)
    ensures
        local_id < u32::MAX ==> decision == Ok::<u32, Error>((local_id + 1) as u32),
        local_id == u32::MAX ==> decision == Err::<u32, Error>(Error::AmountOverflow),
{
    match local_id.checked_add(1) {
        Some(next) => Ok(next),
        None => Err(Error::AmountOverflow),
    }
}

/// Decides whether a cross-chain deposit of `amount` may be shielded, given
/// the minimum deposit of its asset, or `None` for an unregistered asset.
pub fn admit_cross_chain_deposit(minimum_deposit: Option<u128>, amount: u128) -> (decision: Result<
    (),
    Error,
>)
    ensures
        (minimum_deposit matches Some(minimum) && amount >= minimum) ==> decision == Ok::<
            (),
            Error,
        >(()),
        !(minimum_deposit matches Some(minimum) && amount >= minimum) ==> decision == Err::<
            (),
            Error,
        >(Error::InvalidProof),
{
    match minimum_deposit {
        Some(minimum) => {
            if amount >= minimum {
                Ok(())
            } else {
                Err(Error::InvalidProof)
            }
        },
        None => Err(Error::InvalidProof),
    }
}

} // verus!
