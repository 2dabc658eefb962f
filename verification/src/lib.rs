//! Shielded deposits and redemptions: hidden commitments, single-use
//! nullifiers, a Merkle anonymity set over the commitments, and the
//! zero-knowledge relation that ties a nullifier to its commitment.

pub mod error;
pub mod simple_hash;
pub mod merkle_tree;
pub mod note;
pub mod constraints;
pub mod circuit;
pub mod zksnark;
pub mod xcm_config;
pub mod ledger;
