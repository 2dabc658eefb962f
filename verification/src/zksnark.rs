//! Verification of redemption proofs, and the encoding of verifying keys.
//!
//! A verifying key is held as its canonical compressed encoding, a proof as
//! the bytes it was submitted in. The pairing check itself is the work of
//! the Groth16 implementation over BN254; this module fixes what is handed
//! to it and what is made of its answer.

use vstd::prelude::*;
use ark_bn254::{Bn254, Fr};
use ark_ff::PrimeField;
use ark_groth16::{Groth16, PreparedVerifyingKey, Proof};
use ark_serialize::{CanonicalDeserialize, CanonicalSerialize};
use crate::error::ProtocolError;
use crate::simple_hash::byte_range;

verus! {

/// Serialized proof bytes, as stored or transmitted.
pub type SerializedProof = Vec<u8>;

/// Serialized verifying key bytes.
pub type SerializedVK = Vec<u8>;

/// Number of statement bytes that one field element carries.
pub const CHUNK_LEN: usize = 31;

/// What decoding `bytes` as a compressed BN254 Groth16 verifying key and
/// encoding the key again gives; `None` where the bytes do not decode.
pub uninterp spec fn vk_canonical_encoding(bytes: Seq<u8>) -> Option<Seq<u8>>;

/// Whether `bytes` decode as a compressed BN254 Groth16 proof.
pub uninterp spec fn proof_decodes(bytes: Seq<u8>) -> bool;

/// The answer of the Groth16 verifier for the key and the proof that `vk`
/// and `proof` decode to, on the field elements that the 32-byte
/// little-endian `inputs` reduce to; `None` where a decoding or the verifier
/// itself fails.
pub uninterp spec fn groth16_verdict(vk: Seq<u8>, proof: Seq<u8>, inputs: Seq<Seq<u8>>) -> Option<
    bool,
>;

/// The view of an optional byte vector.
pub open spec fn optional_bytes(value: Option<Vec<u8>>) -> Option<Seq<u8>> {
    match value {
        Some(bytes) => Some(bytes@),
        None => None,
    }
}

/// Whether `bytes` is the encoding that its own decoding gives back.
pub open spec fn is_canonical_vk(bytes: Seq<u8>) -> bool {
    vk_canonical_encoding(bytes) == Some(bytes)
}

/// The key that `bytes` stand for: the canonical form of what they decode
/// to, where that form is stable under another decoding.
pub open spec fn decoded_vk(bytes: Seq<u8>) -> Option<Seq<u8>> {
    match vk_canonical_encoding(bytes) {
        Some(encoding) => if is_canonical_vk(encoding) {
            Some(encoding)
        } else {
            None
        },
        None => None,
    }
}

/// The 32-byte chunks handed to the verifier, as byte sequences.
pub open spec fn chunks(inputs: Seq<[u8; 32]>) -> Seq<Seq<u8>> {
    Seq::new(inputs.len(), |i: int| inputs[i]@)
}

/// The `k`-th field element of a statement value: bytes `31k .. 31k + 31`,
/// zero-padded on the right to 32 bytes.
pub open spec fn padded_chunk(bytes: Seq<u8>, k: int) -> Seq<u8> {
    Seq::new(
        32,
        |i: int|
            if i < 31 && 31 * k + i < bytes.len() {
                bytes[31 * k + i]
            } else {
                0u8
            },
    )
}

/// The field elements of one statement value, in order.
pub open spec fn field_chunks(bytes: Seq<u8>) -> Seq<Seq<u8>> {
    Seq::new(((bytes.len() + 30) / 31) as nat, |k: int| padded_chunk(bytes, k))
}

/// The public inputs of a statement: the chunks of the nullifier, then those
/// of the commitment.
pub open spec fn public_inputs_spec(nullifier: Seq<u8>, commitment: Seq<u8>) -> Seq<Seq<u8>> {
    field_chunks(nullifier) + field_chunks(commitment)
}

/// The number that a byte string stands for, least significant byte first.
pub open spec fn le_value(bytes: Seq<u8>) -> nat
    decreases bytes.len(),
{
    if bytes.len() == 0 {
        0
    } else {
        bytes[0] as nat + 256 * le_value(bytes.skip(1))
    }
}

/// The order of the scalar field of BN254, from its high and low 128 bits.
pub open spec fn scalar_field_order() -> nat {
    (0x30644e72e131a029b85045b68181585du128 as nat) * 0x1_0000_0000_0000_0000u128 as nat
        * 0x1_0000_0000_0000_0000u128 as nat + 0x2833e84879b9709143e1f593f0000001u128 as nat
}

/// The field element that the verifier reads a chunk as.
pub open spec fn field_element(chunk: Seq<u8>) -> nat {
    le_value(chunk) % scalar_field_order()
}

/// What verification returns, given whether the proof decodes and what the
/// verifier answers.
pub open spec fn verification_outcome(decodes: bool, verdict: Option<bool>) -> Result<
    bool,
    ProtocolError,
> {
    if !decodes {
        Err(ProtocolError::SerializationError)
    } else {
        match verdict {
            Some(accepted) => Ok(accepted),
            None => Err(ProtocolError::SerializationError),
        }
    }
}

/// A verifying key of the redemption circuit, in canonical encoding.
#[derive(Debug, PartialEq, Eq)]
pub struct VerifyingKey {
    bytes: Vec<u8>,
}

impl View for VerifyingKey {
    type V = Seq<u8>;

    closed spec fn view(&self) -> Seq<u8> {
        self.bytes@
    }
}

impl VerifyingKey {
    #[verifier::type_invariant]
    closed spec fn well_formed(&self) -> bool {
        is_canonical_vk(self.bytes@)
    }

    /// The canonical encoding of the key.
    pub fn as_bytes(&self) -> (bytes: &[u8])
        ensures
            bytes@ == self@,
    {
        self.bytes.as_slice()
    }
}

impl Clone for VerifyingKey {
    fn clone(&self) -> (copy: Self)
        ensures
            copy@ == self@,
    {
        proof {
            use_type_invariant(self);
        }
        VerifyingKey { bytes: self.bytes.clone() }
    }
}

/// Calls `VerifyingKey::<Bn254>::deserialize_compressed` on `bytes` and
/// `serialize_compressed` on the key it gives. Claimed: the result is a
/// function of `bytes` alone.
#[verifier::external_body]
fn reencode_verifying_key(bytes: &[u8]) -> (encoding: Option<Vec<u8>>)
    ensures
        optional_bytes(encoding) == vk_canonical_encoding(bytes@),
{
    let key = ark_groth16::VerifyingKey::<Bn254>::deserialize_compressed(bytes).ok()?;
    let mut encoding: Vec<u8> = Vec::new();
    key.serialize_compressed(&mut encoding).ok()?;
    Some(encoding)
}

/// Calls `Proof::<Bn254>::deserialize_compressed` on `bytes`. Claimed:
/// whether it succeeds is a function of `bytes` alone.
#[verifier::external_body]
fn proof_is_well_formed(bytes: &[u8]) -> (decodes: bool)
    ensures
        decodes == proof_decodes(bytes@),
{
    Proof::<Bn254>::deserialize_compressed(bytes).is_ok()
}

/// Calls `Groth16::<Bn254>::verify_proof` with the key and the proof that
/// the bytes decode to and with `Fr::from_le_bytes_mod_order` of each input.
/// Claimed: the answer is a function of the three arguments alone.
#[verifier::external_body]
fn groth16_check(vk: &[u8], proof: &[u8], inputs: &Vec<[u8; 32]>) -> (verdict: Option<bool>)
    ensures
        verdict == groth16_verdict(vk@, proof@, chunks(inputs@)),
{
    let key = ark_groth16::VerifyingKey::<Bn254>::deserialize_compressed(vk).ok()?;
    let proof = Proof::<Bn254>::deserialize_compressed(proof).ok()?;
    let scalars: Vec<Fr> = inputs.iter().map(|chunk| Fr::from_le_bytes_mod_order(chunk)).collect();
    let prepared = PreparedVerifyingKey::from(key);
    Groth16::<Bn254>::verify_proof(&prepared, &proof, &scalars).ok()
}

/// Whether two byte strings are equal.
fn bytes_eq(a: &[u8], b: &[u8]) -> (same: bool)
    ensures
        same == (a@ == b@),
{
    if a.len() != b.len() {
        return false;
    }
    let mut i: usize = 0;
    while i < a.len()
        invariant
            i <= a.len(),
            a.len() == b.len(),
            forall|j: int| 0 <= j < i ==> a@[j] == b@[j],
        decreases a.len() - i,
    {
        if a[i] != b[i] {
            return false;
        }
        i += 1;
    }
    assert(a@ =~= b@);
    true
}

/// Appends the field elements of one statement value.
fn push_field_chunks(inputs: &mut Vec<[u8; 32]>, bytes: &[u8])
    ensures
        chunks(final(inputs)@) == chunks(old(inputs)@) + field_chunks(bytes@),
{
    let len: usize = bytes.len();
    let count: usize = len / CHUNK_LEN + (if len % CHUNK_LEN == 0 {
        0
    } else {
        1
    });
    let ghost target = chunks(old(inputs)@) + field_chunks(bytes@);
    let ghost base = old(inputs)@.len();
    let mut k: usize = 0;
    while k < count
        invariant
            len == bytes.len(),
            count == (len + 30) / 31,
            k <= count,
            base == old(inputs)@.len(),
            target == chunks(old(inputs)@) + field_chunks(bytes@),
            inputs.len() == base + k,
            forall|j: int| 0 <= j < base + k ==> (#[trigger] inputs@[j])@ == target[j],
        decreases count - k,
    {
        let mut chunk: [u8; 32] = [0u8; 32];
        let start: usize = CHUNK_LEN * k;
        let mut i: usize = 0;
        while i < CHUNK_LEN && i < len - start
            invariant
                len == bytes.len(),
                start == 31 * k,
                start < len,
                i <= 31,
                start + i <= len,
                forall|j: int|
                    0 <= j < 32 ==> chunk@[j] == (if j < i {
                        bytes@[start + j]
                    } else {
                        0u8
                    }),
            decreases 31 - i,
        {
            chunk[i] = bytes[start + i];
            i += 1;
        }
        assert(chunk@ =~= padded_chunk(bytes@, k as int));
        inputs.push(chunk);
        k += 1;
    }
    assert(chunks(inputs@) =~= target);
}

/// Encodes a public statement as the field elements that the verifier
/// takes: each value is split into 31-byte chunks, each chunk zero-padded on
/// the right to 32 bytes and read little-endian. The last byte of every chunk
/// is zero, so each stands for a number below 2^248.
pub fn encode_public_inputs(nullifier: &[u8], commitment: &[u8]) -> (inputs: Vec<[u8; 32]>)
    ensures
        chunks(inputs@) == public_inputs_spec(nullifier@, commitment@),
        forall|k: int| 0 <= k < inputs.len() ==> (#[trigger] inputs@[k])@[31] == 0u8,
{
    let mut inputs: Vec<[u8; 32]> = Vec::new();
    assert(chunks(inputs@) =~= Seq::<Seq<u8>>::empty());
    push_field_chunks(&mut inputs, nullifier);
    push_field_chunks(&mut inputs, commitment);
    assert(chunks(inputs@) =~= public_inputs_spec(nullifier@, commitment@));
    assert forall|k: int| 0 <= k < inputs.len() implies (#[trigger] inputs@[k])@[31] == 0u8 by {
        assert(chunks(inputs@)[k] == inputs@[k]@);
    }
    inputs
}

/// Turns the two answers of the proof system into the result of a
/// verification: a proof that does not decode, and a verifier that cannot
/// answer, are serialization failures; a rejected proof is `Ok(false)`.
pub fn conclude_verification(decodes: bool, verdict: Option<bool>) -> (result: Result<
    bool,
    ProtocolError,
>)
    ensures
        result == verification_outcome(decodes, verdict),
{
    if !decodes {
        return Err(ProtocolError::SerializationError);
    }
    match verdict {
        Some(accepted) => Ok(accepted),
        None => Err(ProtocolError::SerializationError),
    }
}

/// Verifies a serialized proof against a public statement.
pub fn verify_proof(
    verifying_key: &VerifyingKey,
    proof_bytes: &[u8],
    nullifier: &[u8],
    commitment: &[u8],
) -> (result: Result<bool, ProtocolError>)
    ensures
        result == verification_outcome(
            proof_decodes(proof_bytes@),
            groth16_verdict(
                verifying_key@,
                proof_bytes@,
                public_inputs_spec(nullifier@, commitment@),
            ),
        ),
{
    if !proof_is_well_formed(proof_bytes) {
        return Err(ProtocolError::SerializationError);
    }
    let inputs = encode_public_inputs(nullifier, commitment);
    let verdict = groth16_check(verifying_key.bytes.as_slice(), proof_bytes, &inputs);
    conclude_verification(true, verdict)
}

/// Round trip: the canonical encoding of a key decodes to that same key.
pub proof fn lemma_vk_round_trip(encoding: Seq<u8>)
    requires
        is_canonical_vk(encoding),
    ensures
        decoded_vk(encoding) == Some(encoding),
{
}

/// The canonical encoding of a verifying key. Decoding it gives the same
/// key back.
pub fn serialize_vk(vk: &VerifyingKey) -> (result: Result<SerializedVK, ProtocolError>)
    ensures
        result is Ok,
        result->Ok_0@ == vk@,
        decoded_vk(result->Ok_0@) == Some(vk@),
{
    proof {
        use_type_invariant(vk);
        lemma_vk_round_trip(vk@);
    }
    Ok(vk.bytes.clone())
}

/// Keeps an encoding that a second decoding has given back unchanged:
/// `Some(encoding)` exactly when `again` holds the same bytes.
pub fn confirm_encoding(encoding: Vec<u8>, again: Option<Vec<u8>>) -> (confirmed: Option<Vec<u8>>)
    ensures
        optional_bytes(again) == Some(encoding@) ==> optional_bytes(confirmed) == Some(encoding@),
        optional_bytes(again) != Some(encoding@) ==> confirmed is None,
{
    match again {
        Some(bytes) => {
            if bytes_eq(bytes.as_slice(), encoding.as_slice()) {
                Some(encoding)
            } else {
                None
            }
        },
        None => None,
    }
}

/// Decodes a verifying key. Fails with
/// [`ProtocolError::SerializationError`] exactly when the bytes stand for no
/// key.
pub fn deserialize_vk(bytes: &[u8]) -> (result: Result<VerifyingKey, ProtocolError>)
    ensures
        decoded_vk(bytes@) is Some ==> result is Ok && Some(result->Ok_0@) == decoded_vk(bytes@),
        decoded_vk(bytes@) is None ==> result == Err::<VerifyingKey, ProtocolError>(
            ProtocolError::SerializationError,
        ),
{
    match reencode_verifying_key(bytes) {
        Some(encoding) => {
            let again = reencode_verifying_key(encoding.as_slice());
            match confirm_encoding(encoding, again) {
                Some(confirmed) => Ok(VerifyingKey { bytes: confirmed }),
                None => Err(ProtocolError::SerializationError),
            }
        },
        None => Err(ProtocolError::SerializationError),
    }
}

/// What the prover handed back for a satisfied circuit instance.
#[derive(Clone, Debug, PartialEq, Eq)]
pub enum ProverOutcome {
    /// The serialized proof.
    Proved(Vec<u8>),
    /// The prover could not build a proof.
    ProverFailed,
    /// The proof could not be serialized.
    EncodingFailed,
}

/// Concludes a proof generation: the serialized proof, or the failure that
/// the caller is told of.
pub fn conclude_proving(outcome: ProverOutcome) -> (result: Result<SerializedProof, ProtocolError>)
    ensures
        outcome matches ProverOutcome::Proved(bytes) ==> result == Ok::<
            SerializedProof,
            ProtocolError,
        >(bytes),
        outcome is ProverFailed ==> result == Err::<SerializedProof, ProtocolError>(
            ProtocolError::ConstraintUnsatisfied,
        ),
        outcome is EncodingFailed ==> result == Err::<SerializedProof, ProtocolError>(
            ProtocolError::SerializationError,
        ),
{
    match outcome {
        ProverOutcome::Proved(bytes) => Ok(bytes),
        ProverOutcome::ProverFailed => Err(ProtocolError::ConstraintUnsatisfied),
        ProverOutcome::EncodingFailed => Err(ProtocolError::SerializationError),
    }
}

/// What a trusted setup hands out as its verifying key, given the encoded
/// key that the proof system produced, or `None` where it produced none.
pub open spec fn setup_outcome(encoded: Option<Seq<u8>>) -> Option<Seq<u8>> {
    match encoded {
        Some(bytes) => decoded_vk(bytes),
        None => None,
    }
}

/// Concludes a trusted setup: turns the encoded verifying key that the proof
/// system produced into a key of this library. Fails with
/// [`ProtocolError::SetupFailure`] exactly when the proof system produced no
/// key, or bytes that stand for none.
pub fn conclude_setup(encoded: Option<Vec<u8>>) -> (result: Result<VerifyingKey, ProtocolError>)
    ensures
        setup_outcome(optional_bytes(encoded)) is Some ==> result is Ok && Some(result->Ok_0@)
            == setup_outcome(optional_bytes(encoded)),
        setup_outcome(optional_bytes(encoded)) is None ==> result == Err::<
            VerifyingKey,
            ProtocolError,
        >(ProtocolError::SetupFailure),
{
    match encoded {
        Some(bytes) => {
            match deserialize_vk(bytes.as_slice()) {
                Ok(key) => Ok(key),
                Err(_) => Err(ProtocolError::SetupFailure),
            }
        },
        None => Err(ProtocolError::SetupFailure),
    }
}

/// The chunks of a statement value lose nothing: two values of the same
/// length with the same chunks are the same value.
pub proof fn lemma_chunks_bind_bytes(one: Seq<u8>, two: Seq<u8>)
    requires
        one.len() == two.len(),
        field_chunks(one) == field_chunks(two),
    ensures
        one == two,
{
    assert forall|j: int| 0 <= j < one.len() implies one[j] == two[j] by {
        let k = j / 31;
        let i = j % 31;
        assert(0 <= k < field_chunks(one).len());
        assert(field_chunks(one)[k] == padded_chunk(one, k));
        assert(field_chunks(two)[k] == padded_chunk(two, k));
        assert(padded_chunk(one, k)[i] == one[31 * k + i]);
        assert(padded_chunk(two, k)[i] == two[31 * k + i]);
    }
    assert(one =~= two);
}

/// The public inputs bind the statement: two statements of the same widths
/// with the same public inputs are the same statement.
pub proof fn lemma_public_inputs_bind_statement(
    nullifier: Seq<u8>,
    commitment: Seq<u8>,
    other_nullifier: Seq<u8>,
    other_commitment: Seq<u8>,
)
    requires
        nullifier.len() == other_nullifier.len(),
        commitment.len() == other_commitment.len(),
        public_inputs_spec(nullifier, commitment) == public_inputs_spec(
            other_nullifier,
            other_commitment,
        ),
    ensures
        nullifier == other_nullifier,
        commitment == other_commitment,
{
    let all = public_inputs_spec(nullifier, commitment);
    let head = field_chunks(nullifier).len() as int;
    assert(field_chunks(other_nullifier).len() == head);
    assert(field_chunks(nullifier) =~= all.subrange(0, head));
    assert(field_chunks(other_nullifier) =~= all.subrange(0, head));
    assert(field_chunks(commitment) =~= all.subrange(head, all.len() as int));
    assert(field_chunks(other_commitment) =~= all.subrange(head, all.len() as int));
    lemma_chunks_bind_bytes(nullifier, other_nullifier);
    lemma_chunks_bind_bytes(commitment, other_commitment);
}

/// A byte string stands for a number below 256 to the power of its length.
proof fn lemma_le_value_bound(bytes: Seq<u8>)
    ensures
        le_value(bytes) < byte_range(bytes.len()),
    decreases bytes.len(),
{
    if bytes.len() > 0 {
        lemma_le_value_bound(bytes.skip(1));
    }
}

/// A zero byte at the most significant end adds nothing.
proof fn lemma_le_value_high_zero(bytes: Seq<u8>)
    requires
        bytes.len() > 0,
        bytes.last() == 0u8,
    ensures
        le_value(bytes) == le_value(bytes.drop_last()),
    decreases bytes.len(),
{
    let shorter = bytes.drop_last();
    if bytes.len() == 1 {
        assert(le_value(bytes.skip(1)) == 0);
    } else {
        lemma_le_value_high_zero(bytes.skip(1));
        assert(shorter.skip(1) =~= bytes.skip(1).drop_last());
        assert(shorter[0] == bytes[0]);
    }
}

/// Reducing a public input modulo the order of the field changes nothing:
/// every chunk stands for a number below 2^248, which is below that order.
pub proof fn lemma_chunk_is_reduced(bytes: Seq<u8>, k: int)
    ensures
        le_value(padded_chunk(bytes, k)) < byte_range(31),
        byte_range(31) < scalar_field_order(),
        field_element(padded_chunk(bytes, k)) == le_value(padded_chunk(bytes, k)),
{
    let chunk = padded_chunk(bytes, k);
    assert(chunk.last() == 0u8);
    lemma_le_value_high_zero(chunk);
    lemma_le_value_bound(chunk.drop_last());
    assert(byte_range(31) < scalar_field_order()) by {
        reveal_with_fuel(byte_range, 32);
    }
    vstd::arithmetic::div_mod::lemma_small_mod(le_value(chunk), scalar_field_order());
}

} // verus!
