//! Deposits that arrive from another chain: the asset registry entry, the
//! asset that a message carries, and the commitment made for it.
//!
//! The identifier of a cross-chain asset is held in its encoded form; the
//! library never looks inside it.

use vstd::prelude::*;
use crate::simple_hash::{commitment_spec, generate_commitment};

verus! {

/// An entry of the asset registry: the local asset id that commitments to a
/// cross-chain asset are made under.
#[derive(Clone, Debug, PartialEq, Eq)]
pub struct RegisteredAsset {
    /// The encoded cross-chain asset identifier.
    pub asset_id: Vec<u8>,
    /// Local asset id used in commitments.
    pub local_id: u32,
    /// Minimum deposit amount.
    pub min_deposit: u128,
    /// Whether the asset is active.
    pub is_active: bool,
}

/// How much of an asset a message carries.
#[derive(Clone, Copy, Debug, PartialEq, Eq)]
pub enum Fungibility {
    /// An amount of a fungible asset.
    Fungible(u128),
    /// An instance of a non-fungible asset.
    NonFungible,
}

/// An asset as a cross-chain message carries it.
#[derive(Clone, Debug, PartialEq, Eq)]
pub struct Asset {
    /// The encoded cross-chain asset identifier.
    pub id: Vec<u8>,
    /// The amount or the instance.
    pub fun: Fungibility,
}

impl RegisteredAsset {
    /// A fresh registration: active, with no minimum deposit.
    pub fn new(asset_id: Vec<u8>, local_id: u32) -> (registered: Self)
        ensures
            registered.asset_id == asset_id,
            registered.local_id == local_id,
            registered.min_deposit == 0,
            registered.is_active,
    {
        RegisteredAsset { asset_id, local_id, min_deposit: 0, is_active: true }
    }
}

/// The amount of a fungible asset; `None` for a non-fungible one.
pub fn extract_asset_amount(asset: &Asset) -> (amount: Option<u128>)
    ensures
        amount == (match asset.fun {
            Fungibility::Fungible(carried) => Some(carried),
            Fungibility::NonFungible => None,
        }),
{
    match asset.fun {
        Fungibility::Fungible(carried) => Some(carried),
        Fungibility::NonFungible => None,
    }
}

/// A fungible asset of the given amount.
pub fn construct_asset(asset_id: Vec<u8>, amount: u128) -> (asset: Asset)
    ensures
        asset.id == asset_id,
        asset.fun == Fungibility::Fungible(amount),
{
    Asset { id: asset_id, fun: Fungibility::Fungible(amount) }
}

/// The commitment of a cross-chain deposit: the same as that of a local
/// deposit of the same amount under the asset's local id. The chain that the
/// deposit came from has no part in it.
pub fn xcm_commitment_data(amount: u128, local_asset_id: u32, randomness: &[u8; 32]) -> (commitment:
    [u8; 32])
    ensures
        commitment@ == commitment_spec(amount, local_asset_id, randomness@),
{
    generate_commitment(amount, local_asset_id, randomness)
}

} // verus!
