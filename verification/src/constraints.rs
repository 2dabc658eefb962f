//! Byte variables of the proof system's constraint system, and the hash of
//! the library over them.
//!
//! The variables and the system they live in belong to the R1CS gadget
//! library; they are held here behind two opaque types. What a variable
//! stands for is tracked as an optional byte: a variable made from a known
//! byte carries it, and an XOR of two variables carries the XOR of what
//! they carry.

use vstd::prelude::*;
use ark_bn254::Fr;
use ark_r1cs_std::bits::uint8::UInt8;
use ark_r1cs_std::eq::EqGadget;
use ark_relations::r1cs::{ConstraintSystemRef, SynthesisError};
use crate::simple_hash::{
    commitment_preimage, commitment_spec, digest_spec, lane_xor, le_bytes, nullifier_spec,
};

verus! {

/// The failure type of constraint synthesis, `SynthesisError` of the
/// constraint-system library; nothing is read from it here.
#[verifier::external_type_specification]
#[verifier::external_body]
pub struct ExSynthesisError(SynthesisError);

/// A constraint system that a circuit is laid down in: a
/// `ConstraintSystemRef` over the scalar field of BN254.
#[verifier::external_body]
pub struct ConstraintSystem {
    /// The handle of the proof system.
    pub handle: ConstraintSystemRef<Fr>,
}

/// A sequence of byte variables: a `Vec` of `UInt8` gadgets.
#[verifier::external_body]
pub struct ByteVars {
    vars: Vec<UInt8<Fr>>,
}

/// The bytes that the variables carry, in order; `None` for a variable whose
/// byte is not known.
pub uninterp spec fn assigned_bytes(vars: ByteVars) -> Seq<Option<u8>>;

/// The bytes of `data`, each of them known.
pub open spec fn known(data: Seq<u8>) -> Seq<Option<u8>> {
    Seq::new(data.len(), |i: int| Some(data[i]))
}

/// The XOR of two optional bytes: known when both are.
pub open spec fn xor_known(a: Option<u8>, b: Option<u8>) -> Option<u8> {
    match (a, b) {
        (Some(x), Some(y)) => Some(x ^ y),
        _ => None,
    }
}

/// What lane `lane` holds after the first `upto` variables have been folded
/// in, starting from a known zero.
pub open spec fn lane_fold(values: Seq<Option<u8>>, lane: int, upto: int) -> Option<u8>
    decreases upto,
{
    if upto <= 0 {
        Some(0u8)
    } else if (upto - 1) % 32 == lane {
        xor_known(lane_fold(values, lane, upto - 1), values[upto - 1])
    } else {
        lane_fold(values, lane, upto - 1)
    }
}

/// The 32 lanes after all of `values` have been folded in.
pub open spec fn folded_bytes(values: Seq<Option<u8>>) -> Seq<Option<u8>> {
    Seq::new(32, |lane: int| lane_fold(values, lane, values.len() as int))
}

/// Calls `UInt8::new_input_vec`, which allocates `values` as public inputs,
/// packed into field elements. Claimed: on success there is one variable for
/// each byte.
#[verifier::external_body]
pub(crate) fn input_bytes(cs: &ConstraintSystem, values: &[u8]) -> (result: Result<
    ByteVars,
    SynthesisError,
>)
    ensures
        result is Ok ==> assigned_bytes(result->Ok_0).len() == values@.len(),
{
    Ok(ByteVars { vars: UInt8::new_input_vec(cs.handle.clone(), values)? })
}

/// Calls `UInt8::new_witness_vec`, which allocates `values` as private
/// witnesses, byte by byte. Claimed: on success there is one variable for
/// each byte, and it carries that byte.
#[verifier::external_body]
pub(crate) fn witness_bytes(cs: &ConstraintSystem, values: &[u8]) -> (result: Result<
    ByteVars,
    SynthesisError,
>)
    ensures
        result is Ok ==> assigned_bytes(result->Ok_0) == known(values@),
{
    Ok(ByteVars { vars: UInt8::new_witness_vec(cs.handle.clone(), values)? })
}

/// Calls `UInt8::constant` and repeats what it gives `count` times. Claimed:
/// every variable carries `value`.
#[verifier::external_body]
pub(crate) fn constant_bytes(value: u8, count: usize) -> (vars: ByteVars)
    ensures
        assigned_bytes(vars) == Seq::new(count as nat, |i: int| Some(value)),
{
    ByteVars { vars: vec![UInt8::constant(value); count] }
}

/// Calls `UInt8::xor` on variable `lane` of `acc` and variable `index` of
/// `input`, and puts the result in place of the former. Claimed: on success
/// that variable carries the XOR of what the two carried and the others are
/// as before; on failure nothing has changed.
#[verifier::external_body]
pub(crate) fn xor_lane(acc: &mut ByteVars, lane: usize, input: &ByteVars, index: usize) -> (result:
    Result<(), SynthesisError>)
    requires
        lane < assigned_bytes(*old(acc)).len(),
        index < assigned_bytes(*input).len(),
    ensures
        result is Ok ==> assigned_bytes(*final(acc)) == assigned_bytes(*old(acc)).update(
            lane as int,
            xor_known(assigned_bytes(*old(acc))[lane as int], assigned_bytes(*input)[index as int]),
        ),
        result is Err ==> assigned_bytes(*final(acc)) == assigned_bytes(*old(acc)),
{
    acc.vars[lane] = acc.vars[lane].xor(&input.vars[index])?;
    Ok(())
}

/// Clones the variables of `first` and of `second` into one sequence.
/// Claimed: it carries what `first` carries, then what `second` carries.
#[verifier::external_body]
pub(crate) fn concat_bytes(first: &ByteVars, second: &ByteVars) -> (joined: ByteVars)
    ensures
        assigned_bytes(joined) == assigned_bytes(*first) + assigned_bytes(*second),
{
    let mut vars = first.vars.clone();
    vars.extend_from_slice(&second.vars);
    ByteVars { vars }
}

/// Calls `EqGadget::enforce_equal` on the two sequences, which constrains
/// them to be equal variable by variable and panics on sequences of
/// different lengths. Nothing is claimed of its outcome.
#[verifier::external_body]
pub(crate) fn enforce_equal_bytes(computed: &ByteVars, stated: &ByteVars) -> (result: Result<
    (),
    SynthesisError,
>)
    requires
        assigned_bytes(*computed).len() == assigned_bytes(*stated).len(),
{
    computed.vars.enforce_equal(&stated.vars)
}

/// The failure `SynthesisError::Unsatisfiable` of the constraint-system
/// library.
#[verifier::external_body]
pub(crate) fn unsatisfiable() -> (failure: SynthesisError) {
    SynthesisError::Unsatisfiable
}

/// The hash gadget: folds the first `count` variables of `input` into 32
/// lanes by XOR, as the hash engine folds bytes. It stands where a gadget of
/// a cryptographic hash is to go.
///
/// Each variable folded in is one XOR asked of the gadget library, and a
/// failure of that XOR is the failure of the hash. On no variables nothing is
/// asked, so the hash cannot fail: it is 32 known zero bytes.
pub(crate) fn blake2s_hash(input: &ByteVars, count: usize) -> (result: Result<
    ByteVars,
    SynthesisError,
>)
    requires
        count == assigned_bytes(*input).len(),
    ensures
        result is Ok ==> assigned_bytes(result->Ok_0) == folded_bytes(assigned_bytes(*input)),
        count == 0 ==> result is Ok,
{
    let mut lanes = constant_bytes(0u8, 32);
    let mut i: usize = 0;
    while i < count
        invariant
            i <= count,
            count == assigned_bytes(*input).len(),
            assigned_bytes(lanes).len() == 32,
            forall|lane: int|
                0 <= lane < 32 ==> assigned_bytes(lanes)[lane] == lane_fold(
                    assigned_bytes(*input),
                    lane,
                    i as int,
                ),
        decreases count - i,
    {
        let lane: usize = i % 32;
        match xor_lane(&mut lanes, lane, input, i) {
            Ok(()) => {},
            Err(failure) => {
                return Err(failure);
            },
        }
        i += 1;
    }
    assert(assigned_bytes(lanes) =~= folded_bytes(assigned_bytes(*input)));
    Ok(lanes)
}

/// The variables that the public commitment is constrained to equal: the
/// hash gadget over the amount, the asset id and the randomness, in this
/// order.
pub(crate) fn commitment_gadget(
    amount: &ByteVars,
    asset_id: &ByteVars,
    randomness: &ByteVars,
) -> (result: Result<ByteVars, SynthesisError>)
    requires
        assigned_bytes(*amount).len() == 16,
        assigned_bytes(*asset_id).len() == 4,
        assigned_bytes(*randomness).len() == 32,
    ensures
        result is Ok ==> assigned_bytes(result->Ok_0) == folded_bytes(
            assigned_bytes(*amount) + assigned_bytes(*asset_id) + assigned_bytes(*randomness),
        ),
{
    let preimage = concat_bytes(&concat_bytes(amount, asset_id), randomness);
    blake2s_hash(&preimage, 52)
}

/// The variables that the public nullifier is constrained to equal: the
/// hash gadget over the commitment and the secret, in this order.
pub(crate) fn nullifier_gadget(commitment: &ByteVars, secret: &ByteVars) -> (result: Result<
    ByteVars,
    SynthesisError,
>)
    requires
        assigned_bytes(*commitment).len() == 32,
        assigned_bytes(*secret).len() == 32,
    ensures
        result is Ok ==> assigned_bytes(result->Ok_0) == folded_bytes(
            assigned_bytes(*commitment) + assigned_bytes(*secret),
        ),
{
    let preimage = concat_bytes(commitment, secret);
    blake2s_hash(&preimage, 64)
}

/// On a known witness the commitment gadget carries the commitment that the
/// library derives from that witness.
pub proof fn lemma_commitment_gadget_mirrors(amount: u128, asset_id: u32, randomness: Seq<u8>)
    ensures
        folded_bytes(
            known(le_bytes(amount as nat, 16)) + known(le_bytes(asset_id as nat, 4)) + known(
                randomness,
            ),
        ) == known(commitment_spec(amount, asset_id, randomness)),
{
    let preimage = commitment_preimage(amount, asset_id, randomness);
    assert(known(le_bytes(amount as nat, 16)) + known(le_bytes(asset_id as nat, 4)) + known(
        randomness,
    ) =~= known(preimage));
    lemma_gadget_mirrors_engine(preimage);
}

/// On a known commitment and secret the nullifier gadget carries the
/// nullifier that the library derives from them.
pub proof fn lemma_nullifier_gadget_mirrors(commitment: Seq<u8>, secret: Seq<u8>)
    ensures
        folded_bytes(known(commitment) + known(secret)) == known(
            nullifier_spec(commitment, secret),
        ),
{
    assert(known(commitment) + known(secret) =~= known(commitment + secret));
    lemma_gadget_mirrors_engine(commitment + secret);
}

/// The hash gadget mirrors the hash engine: on variables that carry the
/// bytes of `data` it gives variables that carry the digest of `data`.
pub proof fn lemma_gadget_mirrors_engine(data: Seq<u8>)
    ensures
        folded_bytes(known(data)) == known(digest_spec(data)),
{
    assert forall|lane: int| 0 <= lane < 32 implies folded_bytes(known(data))[lane] == known(
        digest_spec(data),
    )[lane] by {
        lemma_lane_fold_known(data, lane, data.len() as int);
    }
    assert(folded_bytes(known(data)) =~= known(digest_spec(data)));
}

/// Lane by lane, folding known bytes gives the known XOR of the lane.
proof fn lemma_lane_fold_known(data: Seq<u8>, lane: int, upto: int)
    requires
        0 <= upto <= data.len(),
    ensures
        lane_fold(known(data), lane, upto) == Some(lane_xor(data, lane, upto)),
    decreases upto,
{
    if upto > 0 {
        lemma_lane_fold_known(data, lane, upto - 1);
    }
}

} // verus!
