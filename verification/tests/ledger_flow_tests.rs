use std::collections::{HashMap, HashSet};

use privacy_bridge::ledger::{
    admit_commitment, admit_cross_chain_deposit, admit_nullifier, following_asset_id, Error,
};
use privacy_bridge::simple_hash::{generate_commitment, generate_nullifier};
use privacy_bridge::xcm_config::{
    construct_asset, extract_asset_amount, xcm_commitment_data, Asset, Fungibility,
    RegisteredAsset,
};

/// What the ledger stores with a commitment. The amount is not part of it.
struct CommitmentData {
    depositor: u64,
    asset_id: u32,
}

/// An in-memory ledger: it reads its state, asks the library for the
/// decision, and writes what was decided.
struct Ledger {
    commitments: HashMap<[u8; 32], CommitmentData>,
    nullifiers: HashSet<[u8; 32]>,
    commitment_count: u32,
    registry: HashMap<Vec<u8>, RegisteredAsset>,
    next_asset_id: u32,
}

impl Ledger {
    fn new() -> Self {
        Ledger {
            commitments: HashMap::new(),
            nullifiers: HashSet::new(),
            commitment_count: 0,
            registry: HashMap::new(),
            next_asset_id: 0,
        }
    }

    fn record(&mut self, commitment: [u8; 32], asset_id: u32, who: u64) -> Result<(), Error> {
        let count =
            admit_commitment(self.commitments.contains_key(&commitment), self.commitment_count)?;
        self.commitments.insert(commitment, CommitmentData { depositor: who, asset_id });
        self.commitment_count = count;
        Ok(())
    }

    fn consume(&mut self, nullifier: [u8; 32]) -> Result<(), Error> {
        admit_nullifier(self.nullifiers.contains(&nullifier))?;
        self.nullifiers.insert(nullifier);
        Ok(())
    }

    fn deposit(
        &mut self,
        who: u64,
        amount: u128,
        asset_id: u32,
        randomness: [u8; 32],
    ) -> Result<(), Error> {
        let commitment = generate_commitment(amount, asset_id, &randomness);
        self.record(commitment, asset_id, who)
    }

    fn withdraw(
        &mut self,
        nullifier: [u8; 32],
        _amount: u128,
        _asset_id: u32,
    ) -> Result<(), Error> {
        self.consume(nullifier)
    }

    fn register_asset(&mut self, asset_id: Vec<u8>, min_deposit: u128) -> Result<(), Error> {
        let local_id = self.next_asset_id;
        self.next_asset_id = following_asset_id(local_id)?;
        let mut registration = RegisteredAsset::new(asset_id.clone(), local_id);
        registration.min_deposit = min_deposit;
        self.registry.insert(asset_id, registration);
        Ok(())
    }

    fn deposit_from_xcm(
        &mut self,
        who: u64,
        asset_id: &[u8],
        amount: u128,
        randomness: [u8; 32],
    ) -> Result<(), Error> {
        let found = self.registry.get(asset_id).cloned();
        let minimum = found.as_ref().map(|registered| registered.min_deposit);
        admit_cross_chain_deposit(minimum, amount)?;
        let registered = found.ok_or(Error::InvalidProof)?;
        let commitment = xcm_commitment_data(amount, registered.local_id, &randomness);
        self.record(commitment, registered.local_id, who)
    }

    fn withdraw_to_parachain(
        &mut self,
        nullifier: [u8; 32],
        _asset_id: u32,
        _amount: u128,
    ) -> Result<(), Error> {
        self.consume(nullifier)
    }
}

/// The encoded identifier of the relay chain's native asset.
fn parent_asset() -> Vec<u8> {
    vec![1, 0]
}

/// The encoded identifier of the native asset of a sibling chain.
fn sibling_asset() -> Vec<u8> {
    vec![1, 1, 0, 4]
}

#[test]
fn deposit_creates_commitment() {
    let mut ledger = Ledger::new();
    let user = 1u64;
    let amount = 100u128;
    let asset_id = 0u32;
    let randomness = [1u8; 32];

    assert_eq!(ledger.deposit(user, amount, asset_id, randomness), Ok(()));

    let commitment = generate_commitment(amount, asset_id, &randomness);
    assert!(ledger.commitments.contains_key(&commitment));

    assert_eq!(ledger.commitment_count, 1);

    let commitment_data = ledger.commitments.get(&commitment).unwrap();
    assert_eq!(commitment_data.depositor, user);
    assert_eq!(commitment_data.asset_id, asset_id);
}

#[test]
fn deposit_fails_for_duplicate_commitment() {
    let mut ledger = Ledger::new();
    let user = 1u64;
    let amount = 100u128;
    let asset_id = 0u32;
    let randomness = [1u8; 32];

    assert_eq!(ledger.deposit(user, amount, asset_id, randomness), Ok(()));

    assert_eq!(
        ledger.deposit(user, amount, asset_id, randomness),
        Err(Error::CommitmentAlreadyExists)
    );
    assert_eq!(ledger.commitment_count, 1);
    assert_eq!(ledger.commitments.len(), 1);
}

#[test]
fn commitment_hides_amount() {
    let mut ledger = Ledger::new();
    let user = 1u64;
    let amount1 = 100u128;
    let amount2 = 200u128;
    let asset_id = 0u32;
    let randomness1 = [1u8; 32];
    let randomness2 = [2u8; 32];

    assert_eq!(ledger.deposit(user, amount1, asset_id, randomness1), Ok(()));
    assert_eq!(ledger.deposit(user, amount2, asset_id, randomness2), Ok(()));

    let commitment1 = generate_commitment(amount1, asset_id, &randomness1);
    let commitment2 = generate_commitment(amount2, asset_id, &randomness2);

    assert_ne!(commitment1, commitment2);

    let data1 = ledger.commitments.get(&commitment1).unwrap();
    let data2 = ledger.commitments.get(&commitment2).unwrap();

    assert_eq!(data1.asset_id, data2.asset_id);
}

#[test]
fn withdraw_marks_nullifier_as_used() {
    let mut ledger = Ledger::new();
    let amount = 100u128;
    let asset_id = 0u32;
    let nullifier = [3u8; 32];

    assert_eq!(ledger.withdraw(nullifier, amount, asset_id), Ok(()));

    assert!(ledger.nullifiers.contains(&nullifier));
}

#[test]
fn withdraw_fails_for_used_nullifier() {
    let mut ledger = Ledger::new();
    let amount = 100u128;
    let asset_id = 0u32;
    let nullifier = [3u8; 32];

    assert_eq!(ledger.withdraw(nullifier, amount, asset_id), Ok(()));

    assert_eq!(ledger.withdraw(nullifier, amount, asset_id), Err(Error::NullifierAlreadyUsed));
    assert_eq!(ledger.nullifiers.len(), 1);
}

#[test]
fn multiple_deposits_increment_counter() {
    let mut ledger = Ledger::new();
    let user = 1u64;
    let amount = 100u128;
    let asset_id = 0u32;

    for i in 0..3 {
        let mut randomness = [0u8; 32];
        randomness[0] = i as u8;

        assert_eq!(ledger.deposit(user, amount, asset_id, randomness), Ok(()));
    }

    assert_eq!(ledger.commitment_count, 3);
}

#[test]
fn full_deposit_withdraw_cycle() {
    let mut ledger = Ledger::new();
    let user = 1u64;
    let amount = 100u128;
    let asset_id = 0u32;
    let randomness = [7u8; 32];

    assert_eq!(ledger.deposit(user, amount, asset_id, randomness), Ok(()));

    let commitment = generate_commitment(amount, asset_id, &randomness);
    assert!(ledger.commitments.contains_key(&commitment));

    let secret = [8u8; 32];
    let nullifier = generate_nullifier(&commitment, &secret);

    assert_eq!(ledger.withdraw(nullifier, amount, asset_id), Ok(()));

    assert!(ledger.nullifiers.contains(&nullifier));

    assert!(ledger.commitments.contains_key(&commitment));
}

#[test]
fn test_registered_asset_creation() {
    let asset_id = parent_asset();
    let registered = RegisteredAsset::new(asset_id.clone(), 1);

    assert_eq!(registered.local_id, 1);
    assert_eq!(registered.asset_id, asset_id);
    assert!(registered.is_active);
    assert_eq!(registered.min_deposit, 0);
}

#[test]
fn test_extract_fungible_amount() {
    let asset = construct_asset(parent_asset(), 1000);

    assert_eq!(extract_asset_amount(&asset), Some(1000));
    assert_eq!(asset.id, parent_asset());
    assert_eq!(asset.fun, Fungibility::Fungible(1000));
}

#[test]
fn non_fungible_asset_has_no_amount() {
    let asset = Asset { id: parent_asset(), fun: Fungibility::NonFungible };
    assert_eq!(extract_asset_amount(&asset), None);
}

#[test]
fn test_register_asset() {
    let mut ledger = Ledger::new();
    let asset_id = parent_asset();
    let min_deposit = 1000u128;

    assert_eq!(ledger.register_asset(asset_id.clone(), min_deposit), Ok(()));

    let registered = ledger.registry.get(&asset_id).unwrap();
    assert_eq!(registered.local_id, 0);
    assert_eq!(registered.min_deposit, min_deposit);
    assert!(registered.is_active);

    assert_eq!(ledger.next_asset_id, 1);
}

#[test]
fn test_register_multiple_assets() {
    let mut ledger = Ledger::new();
    let asset1 = parent_asset();
    assert_eq!(ledger.register_asset(asset1.clone(), 100), Ok(()));

    let asset2 = sibling_asset();
    assert_eq!(ledger.register_asset(asset2.clone(), 200), Ok(()));

    assert_eq!(ledger.next_asset_id, 2);
    assert_eq!(ledger.registry.get(&asset1).unwrap().local_id, 0);
    assert_eq!(ledger.registry.get(&asset2).unwrap().local_id, 1);
}

#[test]
fn test_cross_chain_deposit() {
    let mut ledger = Ledger::new();
    let asset_id = parent_asset();
    let min_deposit = 100u128;
    assert_eq!(ledger.register_asset(asset_id.clone(), min_deposit), Ok(()));

    let amount = 1000u128;
    let randomness = [42u8; 32];
    let depositor = 1u64;

    assert_eq!(ledger.deposit_from_xcm(depositor, &asset_id, amount, randomness), Ok(()));

    let commitment = xcm_commitment_data(amount, 0, &randomness);
    assert!(ledger.commitments.contains_key(&commitment));

    assert_eq!(ledger.commitment_count, 1);
}

#[test]
fn test_cross_chain_deposit_fails_below_minimum() {
    let mut ledger = Ledger::new();
    let asset_id = parent_asset();
    let min_deposit = 1000u128;
    assert_eq!(ledger.register_asset(asset_id.clone(), min_deposit), Ok(()));

    let amount = 500u128;
    let randomness = [42u8; 32];

    assert_eq!(
        ledger.deposit_from_xcm(1, &asset_id, amount, randomness),
        Err(Error::InvalidProof)
    );
    assert_eq!(ledger.commitment_count, 0);
}

#[test]
fn test_cross_chain_deposit_unregistered_asset() {
    let mut ledger = Ledger::new();
    let asset_id = parent_asset();
    let amount = 1000u128;
    let randomness = [42u8; 32];

    assert_eq!(
        ledger.deposit_from_xcm(1, &asset_id, amount, randomness),
        Err(Error::InvalidProof)
    );
}

#[test]
fn test_cross_chain_withdraw() {
    let mut ledger = Ledger::new();
    let asset_id = parent_asset();
    assert_eq!(ledger.register_asset(asset_id.clone(), 100), Ok(()));

    let amount = 1000u128;
    let randomness = [42u8; 32];
    assert_eq!(ledger.deposit_from_xcm(1, &asset_id, amount, randomness), Ok(()));

    let commitment = xcm_commitment_data(amount, 0, &randomness);
    let secret = [99u8; 32];
    let nullifier = generate_nullifier(&commitment, &secret);

    assert_eq!(ledger.withdraw_to_parachain(nullifier, 0, amount), Ok(()));

    assert!(ledger.nullifiers.contains(&nullifier));
}

#[test]
fn test_cross_chain_withdraw_prevents_double_spend() {
    let mut ledger = Ledger::new();
    let asset_id = parent_asset();
    assert_eq!(ledger.register_asset(asset_id.clone(), 100), Ok(()));

    let amount = 1000u128;
    let randomness = [42u8; 32];
    assert_eq!(ledger.deposit_from_xcm(1, &asset_id, amount, randomness), Ok(()));

    let commitment = xcm_commitment_data(amount, 0, &randomness);
    let secret = [99u8; 32];
    let nullifier = generate_nullifier(&commitment, &secret);

    assert_eq!(ledger.withdraw_to_parachain(nullifier, 0, amount), Ok(()));

    assert_eq!(
        ledger.withdraw_to_parachain(nullifier, 0, amount),
        Err(Error::NullifierAlreadyUsed)
    );
    assert_eq!(ledger.nullifiers.len(), 1);
}

#[test]
fn test_full_cross_chain_privacy_flow() {
    let mut ledger = Ledger::new();
    let asset_id = sibling_asset();
    assert_eq!(ledger.register_asset(asset_id.clone(), 100), Ok(()));

    let amount = 5000u128;
    let randomness = [123u8; 32];
    assert_eq!(ledger.deposit_from_xcm(1, &asset_id, amount, randomness), Ok(()));

    let commitment = xcm_commitment_data(amount, 0, &randomness);
    assert!(ledger.commitments.contains_key(&commitment));

    let secret = [200u8; 32];
    let nullifier = generate_nullifier(&commitment, &secret);

    assert_eq!(ledger.withdraw_to_parachain(nullifier, 0, amount), Ok(()));

    assert!(ledger.nullifiers.contains(&nullifier));
}

#[test]
fn test_multiple_cross_chain_deposits_create_anonymity_set() {
    let mut ledger = Ledger::new();
    let asset_id = parent_asset();
    assert_eq!(ledger.register_asset(asset_id.clone(), 100), Ok(()));

    for i in 0..5 {
        let amount = 1000u128 + (i as u128 * 100);
        let randomness = [i as u8; 32];

        assert_eq!(ledger.deposit_from_xcm(i, &asset_id, amount, randomness), Ok(()));
    }

    assert_eq!(ledger.commitment_count, 5);
}
