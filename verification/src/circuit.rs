//! The relation that a redemption proves, and the values that its
//! constraint system is built over.
//!
//! The public statement is `(nullifier, commitment)`; the witness is
//! `(amount, asset_id, randomness, secret)`. The relation holds when the
//! commitment is the one derived from the first three witness values and the
//! nullifier is the one derived from the commitment and the secret.

use vstd::prelude::*;
use ark_relations::r1cs::SynthesisError;
use crate::constraints::{
    assigned_bytes, commitment_gadget, enforce_equal_bytes, input_bytes, known,
    lemma_commitment_gadget_mirrors, nullifier_gadget, unsatisfiable, witness_bytes,
    ConstraintSystem,
};
use crate::error::ProtocolError;
use crate::simple_hash::{
    commitment_spec, generate_commitment, le_bytes, lemma_le_bytes_len, nullifier_spec,
    push_le_bytes, simple_hash_bytes, zero_digest,
};

verus! {

/// A circuit instance. With every field absent it carries only the shape of
/// the constraint system, which is all that the trusted setup may depend on.
#[derive(Clone, Debug)]
pub struct PrivateTransferCircuit {
    /// Public: the nullifier that is revealed.
    pub nullifier: Option<Vec<u8>>,
    /// Public: the commitment that is spent.
    pub commitment: Option<Vec<u8>>,
    /// Witness: the hidden amount.
    pub amount: Option<u128>,
    /// Witness: the hidden asset.
    pub asset_id: Option<u32>,
    /// Witness: the randomness that blinds the commitment.
    pub randomness: Option<[u8; 32]>,
    /// Witness: the secret that the nullifier is derived with.
    pub secret: Option<[u8; 32]>,
}

/// The byte vectors that the constraint system allocates, each at its fixed
/// width: an absent value is a zero-filled buffer.
#[derive(Clone, Debug)]
pub struct Assignment {
    /// Public input, 32 bytes where the statement is well formed.
    pub nullifier: Vec<u8>,
    /// Public input, 32 bytes where the statement is well formed.
    pub commitment: Vec<u8>,
    /// Witness, 16 bytes, little-endian.
    pub amount: Vec<u8>,
    /// Witness, 4 bytes, little-endian.
    pub asset_id: Vec<u8>,
    /// Witness, 32 bytes.
    pub randomness: Vec<u8>,
    /// Witness, 32 bytes.
    pub secret: Vec<u8>,
}

/// The relation between a public statement and a witness.
pub open spec fn relation(
    nullifier: Seq<u8>,
    commitment: Seq<u8>,
    amount: u128,
    asset_id: u32,
    randomness: Seq<u8>,
    secret: Seq<u8>,
) -> bool {
    &&& commitment == commitment_spec(amount, asset_id, randomness)
    &&& nullifier == nullifier_spec(commitment, secret)
}

/// The bytes of an optional buffer: zeros where it is absent.
pub open spec fn bytes_or_zero(value: Option<Vec<u8>>) -> Seq<u8> {
    match value {
        Some(bytes) => bytes@,
        None => zero_digest(),
    }
}

/// The bytes of an optional digest: zeros where it is absent.
pub open spec fn digest_or_zero(value: Option<[u8; 32]>) -> Seq<u8> {
    match value {
        Some(bytes) => bytes@,
        None => zero_digest(),
    }
}

impl PrivateTransferCircuit {
    /// The nullifier that the circuit allocates.
    pub open spec fn nullifier_bytes(&self) -> Seq<u8> {
        bytes_or_zero(self.nullifier)
    }

    /// The commitment that the circuit allocates.
    pub open spec fn commitment_bytes(&self) -> Seq<u8> {
        bytes_or_zero(self.commitment)
    }

    /// The amount that the circuit allocates: zero where it is absent.
    pub open spec fn amount_value(&self) -> u128 {
        match self.amount {
            Some(amount) => amount,
            None => 0u128,
        }
    }

    /// The asset id that the circuit allocates: zero where it is absent.
    pub open spec fn asset_value(&self) -> u32 {
        match self.asset_id {
            Some(asset_id) => asset_id,
            None => 0u32,
        }
    }

    /// The randomness that the circuit allocates.
    pub open spec fn randomness_bytes(&self) -> Seq<u8> {
        digest_or_zero(self.randomness)
    }

    /// The secret that the circuit allocates.
    pub open spec fn secret_bytes(&self) -> Seq<u8> {
        digest_or_zero(self.secret)
    }

    /// Whether the allocated values satisfy the relation.
    pub open spec fn relation_holds(&self) -> bool {
        relation(
            self.nullifier_bytes(),
            self.commitment_bytes(),
            self.amount_value(),
            self.asset_value(),
            self.randomness_bytes(),
            self.secret_bytes(),
        )
    }

    /// An instance with a concrete statement and witness, for proving.
    pub fn new(
        nullifier: Vec<u8>,
        commitment: Vec<u8>,
        amount: u128,
        asset_id: u32,
        randomness: [u8; 32],
        secret: [u8; 32],
    ) -> (circuit: Self)
        ensures
            circuit.nullifier == Some(nullifier),
            circuit.commitment == Some(commitment),
            circuit.amount == Some(amount),
            circuit.asset_id == Some(asset_id),
            circuit.randomness == Some(randomness),
            circuit.secret == Some(secret),
    {
        PrivateTransferCircuit {
            nullifier: Some(nullifier),
            commitment: Some(commitment),
            amount: Some(amount),
            asset_id: Some(asset_id),
            randomness: Some(randomness),
            secret: Some(secret),
        }
    }

    /// The instance with nothing assigned, for the trusted setup.
    pub fn empty() -> (circuit: Self)
        ensures
            circuit.nullifier is None,
            circuit.commitment is None,
            circuit.amount is None,
            circuit.asset_id is None,
            circuit.randomness is None,
            circuit.secret is None,
    {
        PrivateTransferCircuit {
            nullifier: None,
            commitment: None,
            amount: None,
            asset_id: None,
            randomness: None,
            secret: None,
        }
    }

    /// The byte vectors to allocate, in the widths that fix the shape of the
    /// constraint system.
    pub fn assignment(&self) -> (assigned: Assignment)
        ensures
            assigned.nullifier@ == self.nullifier_bytes(),
            assigned.commitment@ == self.commitment_bytes(),
            assigned.amount@ == le_bytes(self.amount_value() as nat, 16),
            assigned.asset_id@ == le_bytes(self.asset_value() as nat, 4),
            assigned.randomness@ == self.randomness_bytes(),
            assigned.secret@ == self.secret_bytes(),
    {
        let nullifier = buffer_or_zero(&self.nullifier);
        let commitment = buffer_or_zero(&self.commitment);
        let amount_value: u128 = match self.amount {
            Some(amount) => amount,
            None => 0u128,
        };
        let asset_value: u32 = match self.asset_id {
            Some(asset_id) => asset_id,
            None => 0u32,
        };
        let mut amount: Vec<u8> = Vec::new();
        push_le_bytes(&mut amount, amount_value, 16);
        let mut asset_id: Vec<u8> = Vec::new();
        push_le_bytes(&mut asset_id, asset_value as u128, 4);
        assert(amount@ =~= le_bytes(self.amount_value() as nat, 16));
        assert(asset_id@ =~= le_bytes(self.asset_value() as nat, 4));
        let randomness = digest_buffer_or_zero(&self.randomness);
        let secret = digest_buffer_or_zero(&self.secret);
        Assignment { nullifier, commitment, amount, asset_id, randomness, secret }
    }

    /// Lays the relation down in `cs`: allocates the statement as public
    /// inputs and the witness as private witnesses, and constrains the
    /// commitment and the nullifier to be the hashes of their preimages.
    ///
    /// A nullifier or a commitment that is not 32 bytes long is refused; any
    /// other failure is one of the constraint system.
    pub fn generate_constraints(self, cs: &ConstraintSystem) -> (result: Result<
        (),
        SynthesisError,
    >)
        ensures
            (self.nullifier_bytes().len() != 32 || self.commitment_bytes().len() != 32)
                ==> result is Err,
    {
        let assigned = self.assignment();
        if assigned.nullifier.len() != 32 || assigned.commitment.len() != 32 {
            return Err(unsatisfiable());
        }
        proof {
            lemma_le_bytes_len(self.amount_value() as nat, 16);
            lemma_le_bytes_len(self.asset_value() as nat, 4);
        }
        let nullifier_var = input_bytes(cs, assigned.nullifier.as_slice())?;
        let commitment_var = input_bytes(cs, assigned.commitment.as_slice())?;

        let amount_var = witness_bytes(cs, assigned.amount.as_slice())?;
        let asset_id_var = witness_bytes(cs, assigned.asset_id.as_slice())?;
        let randomness_var = witness_bytes(cs, assigned.randomness.as_slice())?;
        let secret_var = witness_bytes(cs, assigned.secret.as_slice())?;

        let computed_commitment = commitment_gadget(&amount_var, &asset_id_var, &randomness_var)?;
        proof {
            // What is constrained to equal the public commitment carries the
            // commitment to the witness.
            lemma_commitment_gadget_mirrors(
                self.amount_value(),
                self.asset_value(),
                self.randomness_bytes(),
            );
            assert(assigned_bytes(computed_commitment) == known(
                commitment_spec(self.amount_value(), self.asset_value(), self.randomness_bytes()),
            ));
        }
        enforce_equal_bytes(&computed_commitment, &commitment_var)?;

        let computed_nullifier = nullifier_gadget(&commitment_var, &secret_var)?;
        enforce_equal_bytes(&computed_nullifier, &nullifier_var)
    }

    /// Decides the relation on the values that the circuit allocates.
    pub fn is_satisfied(&self) -> (satisfied: bool)
        ensures
            satisfied == self.relation_holds(),
    {
        let assigned = self.assignment();
        let amount: u128 = match self.amount {
            Some(amount) => amount,
            None => 0u128,
        };
        let asset_id: u32 = match self.asset_id {
            Some(asset_id) => asset_id,
            None => 0u32,
        };
        let randomness: [u8; 32] = match self.randomness {
            Some(randomness) => randomness,
            None => [0u8; 32],
        };
        assert(randomness@ =~= self.randomness_bytes());
        let expected_commitment = generate_commitment(amount, asset_id, &randomness);
        if !bytes_match_digest(assigned.commitment.as_slice(), &expected_commitment) {
            return false;
        }
        let mut preimage: Vec<u8> = assigned.commitment;
        let mut secret = assigned.secret;
        preimage.append(&mut secret);
        let expected_nullifier = simple_hash_bytes(preimage.as_slice());
        bytes_match_digest(assigned.nullifier.as_slice(), &expected_nullifier)
    }

    /// Rejects a statement and witness that do not satisfy the relation, so
    /// that no proof is attempted for them.
    pub fn check_witness(&self) -> (result: Result<(), ProtocolError>)
        ensures
            self.relation_holds() ==> result == Ok::<(), ProtocolError>(()),
            !self.relation_holds() ==> result == Err::<(), ProtocolError>(
                ProtocolError::ConstraintUnsatisfied,
            ),
    {
        if self.is_satisfied() {
            Ok(())
        } else {
            Err(ProtocolError::ConstraintUnsatisfied)
        }
    }
}

/// The circuit instance to prove a redemption with. A statement and witness
/// that do not satisfy the relation are refused with
/// [`ProtocolError::ConstraintUnsatisfied`], so that no proof is attempted
/// for them.
pub fn proving_instance(
    nullifier: Vec<u8>,
    commitment: Vec<u8>,
    amount: u128,
    asset_id: u32,
    randomness: [u8; 32],
    secret: [u8; 32],
) -> (result: Result<PrivateTransferCircuit, ProtocolError>)
    ensures
        relation(nullifier@, commitment@, amount, asset_id, randomness@, secret@) ==> result is Ok
            && result->Ok_0.nullifier == Some(nullifier) && result->Ok_0.commitment == Some(
            commitment,
        ) && result->Ok_0.amount == Some(amount) && result->Ok_0.asset_id == Some(asset_id)
            && result->Ok_0.randomness == Some(randomness) && result->Ok_0.secret == Some(secret),
        !relation(nullifier@, commitment@, amount, asset_id, randomness@, secret@) ==> result
            == Err::<PrivateTransferCircuit, ProtocolError>(ProtocolError::ConstraintUnsatisfied),
{
    let circuit =
        PrivateTransferCircuit::new(nullifier, commitment, amount, asset_id, randomness, secret);
    if circuit.is_satisfied() {
        Ok(circuit)
    } else {
        Err(ProtocolError::ConstraintUnsatisfied)
    }
}

/// A buffer of 32 zero bytes.
fn zero_buffer() -> (buffer: Vec<u8>)
    ensures
        buffer@ == zero_digest(),
{
    let mut buffer: Vec<u8> = Vec::new();
    let mut i: usize = 0;
    while i < 32
        invariant
            i <= 32,
            buffer.len() == i,
            forall|j: int| 0 <= j < i ==> buffer@[j] == 0u8,
        decreases 32 - i,
    {
        buffer.push(0u8);
        i += 1;
    }
    assert(buffer@ =~= zero_digest());
    buffer
}

/// A copy of `bytes`.
fn copy_bytes(bytes: &[u8]) -> (copy: Vec<u8>)
    ensures
        copy@ == bytes@,
{
    let mut copy: Vec<u8> = Vec::new();
    let mut i: usize = 0;
    while i < bytes.len()
        invariant
            i <= bytes.len(),
            copy@ == bytes@.subrange(0, i as int),
        decreases bytes.len() - i,
    {
        copy.push(bytes[i]);
        assert(copy@ =~= bytes@.subrange(0, i + 1));
        i += 1;
    }
    assert(bytes@.subrange(0, bytes.len() as int) =~= bytes@);
    copy
}

/// The buffer, or 32 zero bytes where it is absent.
fn buffer_or_zero(value: &Option<Vec<u8>>) -> (buffer: Vec<u8>)
    ensures
        buffer@ == bytes_or_zero(*value),
{
    match value {
        Some(bytes) => copy_bytes(bytes.as_slice()),
        None => zero_buffer(),
    }
}

/// The digest as a buffer, or 32 zero bytes where it is absent.
fn digest_buffer_or_zero(value: &Option<[u8; 32]>) -> (buffer: Vec<u8>)
    ensures
        buffer@ == digest_or_zero(*value),
{
    match value {
        Some(bytes) => copy_bytes(bytes.as_slice()),
        None => zero_buffer(),
    }
}

/// Whether `bytes` is exactly the digest `digest`.
fn bytes_match_digest(bytes: &[u8], digest: &[u8; 32]) -> (same: bool)
    ensures
        same == (bytes@ == digest@),
{
    if bytes.len() != 32 {
        return false;
    }
    let mut i: usize = 0;
    while i < 32
        invariant
            i <= 32,
            bytes.len() == 32,
            forall|j: int| 0 <= j < i ==> bytes@[j] == digest@[j],
        decreases 32 - i,
    {
        if bytes[i] != digest[i] {
            return false;
        }
        i += 1;
    }
    assert(bytes@ =~= digest@);
    true
}

/// A witness with the commitment and the nullifier derived from it satisfies
/// the relation.
pub proof fn lemma_derived_statement_satisfies(
    amount: u128,
    asset_id: u32,
    randomness: Seq<u8>,
    secret: Seq<u8>,
)
    ensures
        relation(
            nullifier_spec(commitment_spec(amount, asset_id, randomness), secret),
            commitment_spec(amount, asset_id, randomness),
            amount,
            asset_id,
            randomness,
            secret,
        ),
{
}

} // verus!
