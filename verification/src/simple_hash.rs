//! The hash engine and the two derivations built on it.
//!
//! The engine folds its input into 32 lanes: lane `j` of the digest is the
//! XOR of every input byte whose position is congruent to `j` modulo 32.
//! It is a stand-in with no cryptographic strength; every other module
//! reaches it only through [`digest_spec`] and [`simple_hash_bytes`].

use vstd::prelude::*;

verus! {

/// Number of bytes in a digest.
pub const DIGEST_LEN: usize = 32;

/// XOR of the bytes of `data` at positions below `upto` that fall in `lane`.
pub open spec fn lane_xor(data: Seq<u8>, lane: int, upto: int) -> u8
    decreases upto,
{
    if upto <= 0 {
        0u8
    } else if (upto - 1) % 32 == lane {
        lane_xor(data, lane, upto - 1) ^ data[upto - 1]
    } else {
        lane_xor(data, lane, upto - 1)
    }
}

/// The digest of `data`: 32 bytes, one per lane.
pub open spec fn digest_spec(data: Seq<u8>) -> Seq<u8> {
    Seq::new(32, |lane: int| lane_xor(data, lane, data.len() as int))
}

/// The all-zero digest.
pub open spec fn zero_digest() -> Seq<u8> {
    Seq::new(32, |lane: int| 0u8)
}

/// Little-endian encoding of `x` in `width` bytes (the low `width` bytes of `x`).
pub open spec fn le_bytes(x: nat, width: nat) -> Seq<u8>
    decreases width,
{
    if width == 0 {
        Seq::<u8>::empty()
    } else {
        seq![(x % 256) as u8] + le_bytes(x / 256, (width - 1) as nat)
    }
}

/// The 52-byte preimage of a commitment: amount (16 bytes, little-endian),
/// asset id (4 bytes, little-endian), randomness (32 bytes).
pub open spec fn commitment_preimage(amount: u128, asset_id: u32, randomness: Seq<u8>) -> Seq<u8> {
    le_bytes(amount as nat, 16) + le_bytes(asset_id as nat, 4) + randomness
}

/// The commitment to `(amount, asset_id, randomness)`.
pub open spec fn commitment_spec(amount: u128, asset_id: u32, randomness: Seq<u8>) -> Seq<u8> {
    digest_spec(commitment_preimage(amount, asset_id, randomness))
}

/// The nullifier of `commitment` under `secret`.
pub open spec fn nullifier_spec(commitment: Seq<u8>, secret: Seq<u8>) -> Seq<u8> {
    digest_spec(commitment + secret)
}

/// Hashes any byte sequence, the empty one included, to 32 bytes.
pub fn simple_hash_bytes(data: &[u8]) -> (digest: [u8; 32])
    ensures
        digest@ == digest_spec(data@),
{
    let mut result = [0u8; 32];
    let mut i: usize = 0;
    while i < data.len()
        invariant
            i <= data.len(),
            forall|lane: int| 0 <= lane < 32 ==> result@[lane] == lane_xor(data@, lane, i as int),
        decreases data.len() - i,
    {
        let lane: usize = i % 32;
        let mixed: u8 = result[lane] ^ data[i];
        result[lane] = mixed;
        i += 1;
    }
    assert(result@ =~= digest_spec(data@));
    result
}

/// The digest of `data` as a 256-bit hash value.
pub fn simple_hash(data: &[u8]) -> (digest: [u8; 32])
    ensures
        digest@ == digest_spec(data@),
{
    simple_hash_bytes(data)
}

/// Whether two digests hold the same bytes.
pub fn digest_eq(a: &[u8; 32], b: &[u8; 32]) -> (same: bool)
    ensures
        same == (a@ == b@),
{
    let mut i: usize = 0;
    while i < 32
        invariant
            i <= 32,
            forall|j: int| 0 <= j < i ==> a@[j] == b@[j],
        decreases 32 - i,
    {
        if a[i] != b[i] {
            return false;
        }
        i += 1;
    }
    assert(a@ =~= b@);
    true
}

/// Appends the `width` low bytes of `value`, least significant first.
pub(crate) fn push_le_bytes(buffer: &mut Vec<u8>, value: u128, width: usize)
    requires
        width <= 16,
    ensures
        final(buffer)@ == old(buffer)@ + le_bytes(value as nat, width as nat),
{
    let mut rest: u128 = value;
    let mut written: usize = 0;
    while written < width
        invariant
            written <= width,
            buffer@ + le_bytes(rest as nat, (width - written) as nat) == old(buffer)@ + le_bytes(
                value as nat,
                width as nat,
            ),
        decreases width - written,
    {
        let ghost before = buffer@;
        let low: u8 = (rest % 256) as u8;
        buffer.push(low);
        proof {
            let tail = le_bytes((rest / 256) as nat, (width - written - 1) as nat);
            assert(le_bytes(rest as nat, (width - written) as nat) == seq![low] + tail);
            assert(before + (seq![low] + tail) =~= before.push(low) + tail);
        }
        rest = rest / 256;
        written += 1;
    }
    assert(buffer@ + Seq::<u8>::empty() =~= buffer@);
}

/// Appends every byte of `bytes`.
pub(crate) fn push_all(buffer: &mut Vec<u8>, bytes: &[u8; 32])
    ensures
        final(buffer)@ == old(buffer)@ + bytes@,
{
    let mut i: usize = 0;
    while i < 32
        invariant
            i <= 32,
            buffer@ == old(buffer)@ + bytes@.subrange(0, i as int),
        decreases 32 - i,
    {
        buffer.push(bytes[i]);
        assert(buffer@ =~= old(buffer)@ + bytes@.subrange(0, i + 1));
        i += 1;
    }
    assert(bytes@.subrange(0, 32) =~= bytes@);
}

/// Builds the 52-byte buffer that a commitment is the digest of.
pub fn commitment_preimage_bytes(amount: u128, asset_id: u32, randomness: &[u8; 32]) -> (data: Vec<
    u8,
>)
    ensures
        data@ == commitment_preimage(amount, asset_id, randomness@),
        data.len() == 52,
{
    let mut data: Vec<u8> = Vec::new();
    push_le_bytes(&mut data, amount, 16);
    push_le_bytes(&mut data, asset_id as u128, 4);
    push_all(&mut data, randomness);
    proof {
        lemma_le_bytes_len(amount as nat, 16);
        lemma_le_bytes_len(asset_id as nat, 4);
    }
    assert(data@ =~= commitment_preimage(amount, asset_id, randomness@));
    data
}

/// Builds the 64-byte buffer that a nullifier is the digest of.
pub fn nullifier_preimage_bytes(commitment: &[u8; 32], secret: &[u8; 32]) -> (data: Vec<u8>)
    ensures
        data@ == commitment@ + secret@,
        data.len() == 64,
{
    let mut data: Vec<u8> = Vec::new();
    push_all(&mut data, commitment);
    push_all(&mut data, secret);
    assert(data@ =~= commitment@ + secret@);
    data
}

/// Derives the public commitment to a hidden amount, asset and randomness.
pub fn generate_commitment(amount: u128, asset_id: u32, randomness: &[u8; 32]) -> (commitment:
    [u8; 32])
    ensures
        commitment@ == commitment_spec(amount, asset_id, randomness@),
{
    let data = commitment_preimage_bytes(amount, asset_id, randomness);
    simple_hash(data.as_slice())
}

/// Derives the nullifier that redeems `commitment` under `secret`.
pub fn generate_nullifier(commitment: &[u8; 32], secret: &[u8; 32]) -> (nullifier: [u8; 32])
    ensures
        nullifier@ == nullifier_spec(commitment@, secret@),
{
    let data = nullifier_preimage_bytes(commitment, secret);
    simple_hash(data.as_slice())
}

/// Determinism: two commitments to the same amount, asset and randomness are
/// the same 32 bytes.
pub proof fn lemma_commitment_deterministic(
    amount: u128,
    asset_id: u32,
    randomness: [u8; 32],
    first: [u8; 32],
    second: [u8; 32],
)
    requires
        first@ == commitment_spec(amount, asset_id, randomness@),
        second@ == commitment_spec(amount, asset_id, randomness@),
    ensures
        first == second,
{
    assert(first@ =~= second@);
    assert(first =~= second);
}

/// Determinism: two nullifiers of the same commitment under the same secret
/// are the same 32 bytes.
pub proof fn lemma_nullifier_deterministic(
    commitment: [u8; 32],
    secret: [u8; 32],
    first: [u8; 32],
    second: [u8; 32],
)
    requires
        first@ == nullifier_spec(commitment@, secret@),
        second@ == nullifier_spec(commitment@, secret@),
    ensures
        first == second,
{
    assert(first@ =~= second@);
    assert(first =~= second);
}

/// XOR with zero changes nothing, and XOR with a fixed byte is one-to-one.
proof fn lemma_xor_bytes(a: u8, b: u8, mask: u8)
    ensures
        0u8 ^ a == a,
        a ^ mask == b ^ mask ==> a == b,
        mask ^ a == mask ^ b ==> a == b,
        a ^ b == b ^ a,
{
    assert(0u8 ^ a == a) by (bit_vector);
    assert(a ^ mask == b ^ mask ==> a == b) by (bit_vector);
    assert(mask ^ a == mask ^ b ==> a == b) by (bit_vector);
    assert(a ^ b == b ^ a) by (bit_vector);
}

/// The lanes of an input of at most 64 bytes: each holds at most two bytes.
proof fn lemma_lane_xor_short(data: Seq<u8>, lane: int, upto: int)
    requires
        0 <= lane < 32,
        0 <= upto <= 64,
    ensures
        lane_xor(data, lane, upto) == (if upto <= lane {
            0u8
        } else if upto <= lane + 32 {
            data[lane]
        } else {
            data[lane] ^ data[lane + 32]
        }),
    decreases upto,
{
    if upto > 0 {
        lemma_lane_xor_short(data, lane, upto - 1);
        lemma_xor_bytes(data[lane], 0u8, 0u8);
    }
}

/// The digest of two 32-byte halves is their byte-wise XOR.
pub proof fn lemma_digest_of_halves(left: Seq<u8>, right: Seq<u8>)
    requires
        left.len() == 32,
        right.len() == 32,
    ensures
        digest_spec(left + right).len() == 32,
        forall|lane: int|
            0 <= lane < 32 ==> #[trigger] digest_spec(left + right)[lane] == left[lane]
                ^ right[lane],
{
    assert forall|lane: int| 0 <= lane < 32 implies #[trigger] digest_spec(left + right)[lane]
        == left[lane] ^ right[lane] by {
        lemma_lane_xor_short(left + right, lane, 64);
    }
}

/// The digest of a commitment preimage, lane by lane: the first 20 lanes mix
/// a byte of the amount or of the asset id with a byte of the randomness;
/// the last 12 hold the first 12 bytes of the randomness.
proof fn lemma_commitment_lanes(amount: u128, asset_id: u32, randomness: Seq<u8>)
    requires
        randomness.len() == 32,
    ensures
        commitment_spec(amount, asset_id, randomness).len() == 32,
        forall|lane: int|
            0 <= lane < 16 ==> #[trigger] commitment_spec(amount, asset_id, randomness)[lane]
                == le_bytes(amount as nat, 16)[lane] ^ randomness[lane + 12],
        forall|lane: int|
            16 <= lane < 20 ==> #[trigger] commitment_spec(amount, asset_id, randomness)[lane]
                == le_bytes(asset_id as nat, 4)[lane - 16] ^ randomness[lane + 12],
        forall|lane: int|
            20 <= lane < 32 ==> #[trigger] commitment_spec(amount, asset_id, randomness)[lane]
                == randomness[lane - 20],
{
    let preimage = commitment_preimage(amount, asset_id, randomness);
    lemma_le_bytes_len(amount as nat, 16);
    lemma_le_bytes_len(asset_id as nat, 4);
    assert(preimage.len() == 52);
    assert forall|lane: int| 0 <= lane < 32 implies #[trigger] commitment_spec(
        amount,
        asset_id,
        randomness,
    )[lane] == (if lane < 20 {
        preimage[lane] ^ preimage[lane + 32]
    } else {
        preimage[lane]
    }) by {
        lemma_lane_xor_short(preimage, lane, 52);
    }
}

/// A little-endian encoding has the width it was asked for.
pub proof fn lemma_le_bytes_len(x: nat, width: nat)
    ensures
        le_bytes(x, width).len() == width,
    decreases width,
{
    if width > 0 {
        lemma_le_bytes_len(x / 256, (width - 1) as nat);
    }
}

/// Number of values that `width` bytes can hold.
pub open spec fn byte_range(width: nat) -> nat
    decreases width,
{
    if width == 0 {
        1
    } else {
        256 * byte_range((width - 1) as nat)
    }
}

/// Two numbers that fit in `width` bytes and have the same little-endian
/// encoding are the same number.
pub proof fn lemma_le_bytes_injective(x: nat, y: nat, width: nat)
    requires
        x < byte_range(width),
        y < byte_range(width),
        le_bytes(x, width) == le_bytes(y, width),
    ensures
        x == y,
    decreases width,
{
    if width > 0 {
        let rest_x = le_bytes(x / 256, (width - 1) as nat);
        let rest_y = le_bytes(y / 256, (width - 1) as nat);
        let all_x = le_bytes(x, width);
        let all_y = le_bytes(y, width);
        assert(all_x[0] == (x % 256) as u8);
        assert(all_y[0] == (y % 256) as u8);
        assert(rest_x =~= all_x.skip(1));
        assert(rest_y =~= all_y.skip(1));
        lemma_le_bytes_injective(x / 256, y / 256, (width - 1) as nat);
    }
}

/// Sensitivity to the amount: with the asset and the randomness fixed, two
/// different amounts never give the same commitment.
pub proof fn lemma_commitment_binds_amount(
    amount: u128,
    other_amount: u128,
    asset_id: u32,
    randomness: Seq<u8>,
)
    requires
        randomness.len() == 32,
        amount != other_amount,
    ensures
        commitment_spec(amount, asset_id, randomness) != commitment_spec(
            other_amount,
            asset_id,
            randomness,
        ),
{
    let one = commitment_spec(amount, asset_id, randomness);
    let two = commitment_spec(other_amount, asset_id, randomness);
    if one == two {
        lemma_commitment_lanes(amount, asset_id, randomness);
        lemma_commitment_lanes(other_amount, asset_id, randomness);
        lemma_le_bytes_len(amount as nat, 16);
        lemma_le_bytes_len(other_amount as nat, 16);
        let bytes = le_bytes(amount as nat, 16);
        let other_bytes = le_bytes(other_amount as nat, 16);
        assert forall|i: int| 0 <= i < 16 implies bytes[i] == other_bytes[i] by {
            assert(one[i] == bytes[i] ^ randomness[i + 12]);
            assert(two[i] == other_bytes[i] ^ randomness[i + 12]);
            lemma_xor_bytes(bytes[i], other_bytes[i], randomness[i + 12]);
        }
        assert(bytes =~= other_bytes);
        assert(byte_range(16) == 0x1_0000_0000_0000_0000_0000_0000_0000_0000) by {
            reveal_with_fuel(byte_range, 17);
        }
        lemma_le_bytes_injective(amount as nat, other_amount as nat, 16);
    }
}

/// Sensitivity to the asset: with the amount and the randomness fixed, two
/// different asset ids never give the same commitment.
pub proof fn lemma_commitment_binds_asset(
    amount: u128,
    asset_id: u32,
    other_asset_id: u32,
    randomness: Seq<u8>,
)
    requires
        randomness.len() == 32,
        asset_id != other_asset_id,
    ensures
        commitment_spec(amount, asset_id, randomness) != commitment_spec(
            amount,
            other_asset_id,
            randomness,
        ),
{
    let one = commitment_spec(amount, asset_id, randomness);
    let two = commitment_spec(amount, other_asset_id, randomness);
    if one == two {
        lemma_commitment_lanes(amount, asset_id, randomness);
        lemma_commitment_lanes(amount, other_asset_id, randomness);
        lemma_le_bytes_len(asset_id as nat, 4);
        lemma_le_bytes_len(other_asset_id as nat, 4);
        let bytes = le_bytes(asset_id as nat, 4);
        let other_bytes = le_bytes(other_asset_id as nat, 4);
        assert forall|i: int| 0 <= i < 4 implies bytes[i] == other_bytes[i] by {
            assert(one[i + 16] == bytes[i] ^ randomness[i + 28]);
            assert(two[i + 16] == other_bytes[i] ^ randomness[i + 28]);
            lemma_xor_bytes(bytes[i], other_bytes[i], randomness[i + 28]);
        }
        assert(bytes =~= other_bytes);
        assert(byte_range(4) == 0x1_0000_0000) by {
            reveal_with_fuel(byte_range, 5);
        }
        lemma_le_bytes_injective(asset_id as nat, other_asset_id as nat, 4);
    }
}

/// Sensitivity to the randomness: with the amount and the asset fixed, two
/// different randomness values never give the same commitment.
pub proof fn lemma_commitment_binds_randomness(
    amount: u128,
    asset_id: u32,
    randomness: Seq<u8>,
    other_randomness: Seq<u8>,
)
    requires
        randomness.len() == 32,
        other_randomness.len() == 32,
        randomness != other_randomness,
    ensures
        commitment_spec(amount, asset_id, randomness) != commitment_spec(
            amount,
            asset_id,
            other_randomness,
        ),
{
    let one = commitment_spec(amount, asset_id, randomness);
    let two = commitment_spec(amount, asset_id, other_randomness);
    if one == two {
        lemma_commitment_lanes(amount, asset_id, randomness);
        lemma_commitment_lanes(amount, asset_id, other_randomness);
        let amount_bytes = le_bytes(amount as nat, 16);
        let asset_bytes = le_bytes(asset_id as nat, 4);
        assert forall|i: int| 0 <= i < 32 implies randomness[i] == other_randomness[i] by {
            if i < 12 {
                assert(one[i + 20] == randomness[i]);
                assert(two[i + 20] == other_randomness[i]);
            } else if i < 28 {
                assert(one[i - 12] == amount_bytes[i - 12] ^ randomness[i]);
                assert(two[i - 12] == amount_bytes[i - 12] ^ other_randomness[i]);
                lemma_xor_bytes(randomness[i], other_randomness[i], amount_bytes[i - 12]);
            } else {
                assert(one[i - 12] == asset_bytes[i - 28] ^ randomness[i]);
                assert(two[i - 12] == asset_bytes[i - 28] ^ other_randomness[i]);
                lemma_xor_bytes(randomness[i], other_randomness[i], asset_bytes[i - 28]);
            }
        }
        assert(randomness =~= other_randomness);
    }
}

/// Sensitivity to the commitment: with the secret fixed, two different
/// commitments never give the same nullifier.
pub proof fn lemma_nullifier_binds_commitment(
    commitment: Seq<u8>,
    other_commitment: Seq<u8>,
    secret: Seq<u8>,
)
    requires
        commitment.len() == 32,
        other_commitment.len() == 32,
        secret.len() == 32,
        commitment != other_commitment,
    ensures
        nullifier_spec(commitment, secret) != nullifier_spec(other_commitment, secret),
{
    let one = nullifier_spec(commitment, secret);
    let two = nullifier_spec(other_commitment, secret);
    if one == two {
        lemma_digest_of_halves(commitment, secret);
        lemma_digest_of_halves(other_commitment, secret);
        assert forall|i: int| 0 <= i < 32 implies commitment[i] == other_commitment[i] by {
            assert(one[i] == commitment[i] ^ secret[i]);
            assert(two[i] == other_commitment[i] ^ secret[i]);
            lemma_xor_bytes(commitment[i], other_commitment[i], secret[i]);
        }
        assert(commitment =~= other_commitment);
    }
}

/// Sensitivity to the secret: with the commitment fixed, two different
/// secrets never give the same nullifier.
pub proof fn lemma_nullifier_binds_secret(
    commitment: Seq<u8>,
    secret: Seq<u8>,
    other_secret: Seq<u8>,
)
    requires
        commitment.len() == 32,
        secret.len() == 32,
        other_secret.len() == 32,
        secret != other_secret,
    ensures
        nullifier_spec(commitment, secret) != nullifier_spec(commitment, other_secret),
{
    let one = nullifier_spec(commitment, secret);
    let two = nullifier_spec(commitment, other_secret);
    if one == two {
        lemma_digest_of_halves(commitment, secret);
        lemma_digest_of_halves(commitment, other_secret);
        assert forall|i: int| 0 <= i < 32 implies secret[i] == other_secret[i] by {
            assert(one[i] == commitment[i] ^ secret[i]);
            assert(two[i] == commitment[i] ^ other_secret[i]);
            lemma_xor_bytes(secret[i], other_secret[i], commitment[i]);
        }
        assert(secret =~= other_secret);
    }
}

} // verus!
