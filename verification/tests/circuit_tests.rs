use privacy_bridge::circuit::PrivateTransferCircuit;
use privacy_bridge::error::ProtocolError;
use privacy_bridge::simple_hash::{generate_commitment, generate_nullifier};

fn honest_circuit() -> PrivateTransferCircuit {
    let randomness = [1u8; 32];
    let secret = [2u8; 32];
    let commitment = generate_commitment(100, 0, &randomness);
    let nullifier = generate_nullifier(&commitment, &secret);
    PrivateTransferCircuit::new(nullifier.to_vec(), commitment.to_vec(), 100, 0, randomness, secret)
}

#[test]
fn new_circuit_holds_its_arguments() {
    let circuit =
        PrivateTransferCircuit::new(vec![1, 2], vec![3], 4, 5, [6u8; 32], [7u8; 32]);
    assert_eq!(circuit.nullifier, Some(vec![1, 2]));
    assert_eq!(circuit.commitment, Some(vec![3]));
    assert_eq!(circuit.amount, Some(4));
    assert_eq!(circuit.asset_id, Some(5));
    assert_eq!(circuit.randomness, Some([6u8; 32]));
    assert_eq!(circuit.secret, Some([7u8; 32]));
}

#[test]
fn empty_circuit_holds_nothing() {
    let circuit = PrivateTransferCircuit::empty();
    assert!(circuit.nullifier.is_none());
    assert!(circuit.commitment.is_none());
    assert!(circuit.amount.is_none());
    assert!(circuit.asset_id.is_none());
    assert!(circuit.randomness.is_none());
    assert!(circuit.secret.is_none());
}

#[test]
fn empty_circuit_assigns_zero_buffers_of_fixed_width() {
    let assigned = PrivateTransferCircuit::empty().assignment();
    assert_eq!(assigned.nullifier, vec![0u8; 32]);
    assert_eq!(assigned.commitment, vec![0u8; 32]);
    assert_eq!(assigned.amount, vec![0u8; 16]);
    assert_eq!(assigned.asset_id, vec![0u8; 4]);
    assert_eq!(assigned.randomness, vec![0u8; 32]);
    assert_eq!(assigned.secret, vec![0u8; 32]);
}

#[test]
fn assignment_encodes_the_witness_little_endian() {
    let circuit = PrivateTransferCircuit::new(
        vec![9u8; 32],
        vec![8u8; 32],
        0x0102,
        0x0a0b0c0d,
        [6u8; 32],
        [7u8; 32],
    );
    let assigned = circuit.assignment();
    assert_eq!(assigned.nullifier, vec![9u8; 32]);
    assert_eq!(assigned.commitment, vec![8u8; 32]);
    let mut amount = vec![0u8; 16];
    amount[0] = 2;
    amount[1] = 1;
    assert_eq!(assigned.amount, amount);
    assert_eq!(assigned.asset_id, vec![0x0d, 0x0c, 0x0b, 0x0a]);
    assert_eq!(assigned.amount, 0x0102u128.to_le_bytes().to_vec());
    assert_eq!(assigned.randomness, vec![6u8; 32]);
    assert_eq!(assigned.secret, vec![7u8; 32]);
}

#[test]
fn honest_witness_satisfies_the_relation() {
    let circuit = honest_circuit();
    assert!(circuit.is_satisfied());
    assert_eq!(circuit.check_witness(), Ok(()));
}

#[test]
fn empty_circuit_satisfies_the_relation() {
    assert!(PrivateTransferCircuit::empty().is_satisfied());
}

#[test]
fn any_changed_value_breaks_the_relation() {
    let honest = honest_circuit();

    let mut circuit = honest.clone();
    circuit.amount = Some(101);
    assert!(!circuit.is_satisfied());
    assert_eq!(circuit.check_witness(), Err(ProtocolError::ConstraintUnsatisfied));

    let mut circuit = honest.clone();
    circuit.asset_id = Some(1);
    assert!(!circuit.is_satisfied());

    let mut circuit = honest.clone();
    circuit.randomness = Some([3u8; 32]);
    assert!(!circuit.is_satisfied());

    let mut circuit = honest.clone();
    circuit.secret = Some([3u8; 32]);
    assert!(!circuit.is_satisfied());

    let mut circuit = honest.clone();
    circuit.commitment = Some(vec![0u8; 32]);
    assert!(!circuit.is_satisfied());

    let mut circuit = honest.clone();
    circuit.nullifier = Some(vec![0u8; 32]);
    assert!(!circuit.is_satisfied());

    let mut circuit = honest.clone();
    circuit.nullifier = None;
    assert!(!circuit.is_satisfied());
}

#[test]
fn statement_of_the_wrong_width_breaks_the_relation() {
    let honest = honest_circuit();
    let mut circuit = honest.clone();
    let mut commitment = honest.commitment.clone().unwrap();
    commitment.push(0);
    circuit.commitment = Some(commitment);
    assert_eq!(circuit.check_witness(), Err(ProtocolError::ConstraintUnsatisfied));

    let mut circuit = honest.clone();
    circuit.nullifier = Some(Vec::new());
    assert_eq!(circuit.check_witness(), Err(ProtocolError::ConstraintUnsatisfied));
}
