//! The anonymity set: a binary hash tree over the committed leaves.
//!
//! A level is a sequence of digests. Its parent level combines the nodes in
//! pairs from the left; a node without a partner is paired with the all-zero
//! digest. Climbing stops when one node is left or after [`TREE_DEPTH`]
//! levels, whichever comes first.

use vstd::prelude::*;
use vstd::slice::slice_to_vec;
use crate::error::ProtocolError;
use crate::simple_hash::{
    digest_eq, digest_spec, lemma_digest_of_halves, lemma_nullifier_binds_commitment,
    lemma_nullifier_binds_secret, push_all, simple_hash_bytes, zero_digest,
};

verus! {

/// Number of levels above the leaves: the set holds up to 2^20 leaves.
pub const TREE_DEPTH: usize = 20;

/// The digests of a level, as byte sequences.
pub open spec fn digests(level: Seq<[u8; 32]>) -> Seq<Seq<u8>> {
    Seq::new(level.len(), |i: int| level[i]@)
}

/// The parent of `left` and `right`, in this order.
pub open spec fn hash_pair_spec(left: Seq<u8>, right: Seq<u8>) -> Seq<u8> {
    digest_spec(left + right)
}

/// The node at position `i` of `level`, or the all-zero digest where the
/// level has no such position.
pub open spec fn node_or_zero(level: Seq<Seq<u8>>, i: int) -> Seq<u8> {
    if 0 <= i < level.len() {
        level[i]
    } else {
        zero_digest()
    }
}

/// The level above `level`.
pub open spec fn parent_level(level: Seq<Seq<u8>>) -> Seq<Seq<u8>> {
    Seq::new(
        ((level.len() + 1) / 2) as nat,
        |k: int| hash_pair_spec(level[2 * k], node_or_zero(level, 2 * k + 1)),
    )
}

/// The node reached from a non-empty `level` by climbing at most `depth` levels.
pub open spec fn root_from(level: Seq<Seq<u8>>, depth: nat) -> Seq<u8>
    decreases depth,
{
    if level.len() <= 1 || depth == 0 {
        level[0]
    } else {
        root_from(parent_level(level), (depth - 1) as nat)
    }
}

/// The root of the set with the given leaves.
pub open spec fn root_spec(leaves: Seq<Seq<u8>>) -> Seq<u8> {
    if leaves.len() == 0 {
        zero_digest()
    } else {
        root_from(leaves, TREE_DEPTH as nat)
    }
}

/// The position next to `index` under the same parent.
pub open spec fn sibling_index(index: int) -> int {
    if index % 2 == 0 {
        index + 1
    } else {
        index - 1
    }
}

/// The siblings met on the way up from position `index` of `level`.
pub open spec fn path_from(level: Seq<Seq<u8>>, index: int, depth: nat) -> Seq<Seq<u8>>
    decreases depth,
{
    if level.len() <= 1 || depth == 0 {
        Seq::<Seq<u8>>::empty()
    } else {
        seq![node_or_zero(level, sibling_index(index))] + path_from(
            parent_level(level),
            index / 2,
            (depth - 1) as nat,
        )
    }
}

/// The inclusion proof of leaf `index`.
pub open spec fn proof_spec(leaves: Seq<Seq<u8>>, index: int) -> Seq<Seq<u8>> {
    path_from(leaves, index, TREE_DEPTH as nat)
}

/// One step up: an even position is the left operand, an odd one the right.
pub open spec fn climb_step(current: Seq<u8>, sibling: Seq<u8>, index: int) -> Seq<u8> {
    if index % 2 == 0 {
        hash_pair_spec(current, sibling)
    } else {
        hash_pair_spec(sibling, current)
    }
}

/// The node reached from `current` at position `index` along `path`.
pub open spec fn climb(current: Seq<u8>, path: Seq<Seq<u8>>, index: int) -> Seq<u8>
    decreases path.len(),
{
    if path.len() == 0 {
        current
    } else {
        climb(climb_step(current, path[0], index), path.skip(1), index / 2)
    }
}

/// Whether `proof` leads from `leaf` at position `index` to `expected_root`.
pub open spec fn verifies(
    leaf: Seq<u8>,
    proof: Seq<Seq<u8>>,
    index: int,
    expected_root: Seq<u8>,
) -> bool {
    climb(leaf, proof, index) == expected_root
}

/// Combines two nodes into their parent.
pub fn hash_pair(left: &[u8; 32], right: &[u8; 32]) -> (parent: [u8; 32])
    ensures
        parent@ == hash_pair_spec(left@, right@),
{
    let mut data: Vec<u8> = Vec::new();
    push_all(&mut data, left);
    push_all(&mut data, right);
    assert(data@ =~= left@ + right@);
    simple_hash_bytes(data.as_slice())
}

/// Builds the level above `level`.
fn build_parent_level(level: &[[u8; 32]]) -> (parent: Vec<[u8; 32]>)
    ensures
        digests(parent@) == parent_level(digests(level@)),
        parent.len() == (level.len() + 1) / 2,
{
    let len: usize = level.len();
    let count: usize = len / 2 + len % 2;
    let mut parent: Vec<[u8; 32]> = Vec::new();
    let mut k: usize = 0;
    while k < count
        invariant
            len == level.len(),
            count == (len + 1) / 2,
            k <= count,
            parent.len() == k,
            forall|j: int|
                0 <= j < k ==> (#[trigger] parent@[j])@ == parent_level(digests(level@))[j],
        decreases count - k,
    {
        let left: [u8; 32] = level[2 * k];
        let right: [u8; 32] = if 2 * k + 1 < len {
            level[2 * k + 1]
        } else {
            [0u8; 32]
        };
        assert(right@ =~= node_or_zero(digests(level@), 2 * k + 1));
        let node: [u8; 32] = hash_pair(&left, &right);
        parent.push(node);
        k += 1;
    }
    assert(digests(parent@) =~= parent_level(digests(level@)));
    parent
}

/// Computes the root of the set with the given leaves; the all-zero digest
/// for the empty set.
pub fn calculate_root(leaves: &[[u8; 32]]) -> (root: [u8; 32])
    ensures
        root@ == root_spec(digests(leaves@)),
        leaves.len() == 1 ==> root == leaves[0],
{
    if leaves.len() == 0 {
        let zero: [u8; 32] = [0u8; 32];
        assert(zero@ =~= zero_digest());
        return zero;
    }
    let mut current: Vec<[u8; 32]> = slice_to_vec(leaves);
    let mut level: usize = 0;
    while level < TREE_DEPTH
        invariant
            level <= TREE_DEPTH,
            current.len() >= 1,
            root_from(digests(current@), (TREE_DEPTH - level) as nat) == root_spec(
                digests(leaves@),
            ),
            leaves.len() == 1 ==> current@ == leaves@,
        decreases TREE_DEPTH - level,
    {
        if current.len() == 1 {
            return current[0];
        }
        current = build_parent_level(current.as_slice());
        level += 1;
    }
    current[0]
}

/// Collects the siblings on the way up from leaf `leaf_index`.
///
/// Fails with [`ProtocolError::IndexOutOfBounds`] exactly when the set has no
/// leaf at `leaf_index`. The proof of a leaf within the capacity of the tree
/// verifies for that leaf, its index and the root of the same leaves.
pub fn generate_proof(leaves: &[[u8; 32]], leaf_index: usize) -> (result: Result<
    Vec<[u8; 32]>,
    ProtocolError,
>)
    ensures
        leaf_index >= leaves.len() ==> result == Err::<Vec<[u8; 32]>, ProtocolError>(
            ProtocolError::IndexOutOfBounds,
        ),
        leaf_index < leaves.len() ==> result is Ok && digests(result->Ok_0@) == proof_spec(
            digests(leaves@),
            leaf_index as int,
        ),
        leaf_index < leaves.len() && leaf_index < 1048576 ==> result is Ok && verifies(
            leaves[leaf_index as int]@,
            digests(result->Ok_0@),
            leaf_index as int,
            root_spec(digests(leaves@)),
        ),
{
    if leaf_index >= leaves.len() {
        return Err(ProtocolError::IndexOutOfBounds);
    }
    let mut proof: Vec<[u8; 32]> = Vec::new();
    let mut current: Vec<[u8; 32]> = slice_to_vec(leaves);
    let mut current_index: usize = leaf_index;
    let mut level: usize = 0;
    assert(digests(proof@) =~= Seq::<Seq<u8>>::empty());
    while level < TREE_DEPTH && current.len() > 1
        invariant
            level <= TREE_DEPTH,
            current_index < current.len(),
            digests(proof@) + path_from(
                digests(current@),
                current_index as int,
                (TREE_DEPTH - level) as nat,
            ) == proof_spec(digests(leaves@), leaf_index as int),
        decreases TREE_DEPTH - level,
    {
        let sibling_at: usize = if current_index % 2 == 0 {
            current_index + 1
        } else {
            current_index - 1
        };
        let sibling: [u8; 32] = if sibling_at < current.len() {
            current[sibling_at]
        } else {
            [0u8; 32]
        };
        let ghost before = digests(proof@);
        let ghost rest = path_from(
            parent_level(digests(current@)),
            current_index as int / 2,
            (TREE_DEPTH - level - 1) as nat,
        );
        proof.push(sibling);
        proof {
            assert(sibling@ =~= node_or_zero(
                digests(current@),
                sibling_index(current_index as int),
            ));
            assert(digests(proof@) =~= before.push(sibling@));
            assert(before + (seq![sibling@] + rest) =~= before.push(sibling@) + rest);
        }
        current = build_parent_level(current.as_slice());
        current_index = current_index / 2;
        level += 1;
    }
    assert(digests(proof@) + Seq::<Seq<u8>>::empty() =~= digests(proof@));
    proof {
        if leaf_index < 1048576 {
            lemma_proof_round_trip(digests(leaves@), leaf_index as int);
        }
    }
    Ok(proof)
}

/// Recomputes the root from `leaf` and `proof` and compares it with
/// `expected_root`. A mismatch is the answer `false`, never a failure.
pub fn verify_proof(
    leaf: &[u8; 32],
    proof: &[[u8; 32]],
    leaf_index: usize,
    expected_root: &[u8; 32],
) -> (valid: bool)
    ensures
        valid == verifies(leaf@, digests(proof@), leaf_index as int, expected_root@),
{
    let mut current_hash: [u8; 32] = *leaf;
    let mut current_index: usize = leaf_index;
    let ghost path = digests(proof@);
    let mut k: usize = 0;
    assert(path.subrange(0, path.len() as int) =~= path);
    while k < proof.len()
        invariant
            k <= proof.len(),
            path == digests(proof@),
            climb(current_hash@, path.subrange(k as int, path.len() as int), current_index as int)
                == climb(leaf@, path, leaf_index as int),
        decreases proof.len() - k,
    {
        let sibling: [u8; 32] = proof[k];
        proof {
            let tail = path.subrange(k as int, path.len() as int);
            assert(tail[0] == sibling@);
            assert(tail.skip(1) =~= path.subrange(k + 1, path.len() as int));
        }
        current_hash = if current_index % 2 == 0 {
            hash_pair(&current_hash, &sibling)
        } else {
            hash_pair(&sibling, &current_hash)
        };
        current_index = current_index / 2;
        k += 1;
    }
    digest_eq(&current_hash, expected_root)
}

/// Number of positions that `depth` halvings bring down to position 0.
pub open spec fn span(depth: nat) -> nat
    decreases depth,
{
    if depth == 0 {
        1
    } else {
        2 * span((depth - 1) as nat)
    }
}

/// Climbing from any position of a level along its own sibling path reaches
/// the node that the level's root computation reaches.
proof fn lemma_path_reaches_root(level: Seq<Seq<u8>>, index: int, depth: nat)
    requires
        0 <= index < level.len(),
        index < span(depth),
    ensures
        climb(level[index], path_from(level, index, depth), index) == root_from(level, depth),
    decreases depth,
{
    if level.len() <= 1 || depth == 0 {
    } else {
        let above = parent_level(level);
        let sibling = node_or_zero(level, sibling_index(index));
        let rest = path_from(above, index / 2, (depth - 1) as nat);
        let path = path_from(level, index, depth);
        assert(path[0] == sibling);
        assert(path.skip(1) =~= rest);
        assert(climb_step(level[index], sibling, index) == above[index / 2]);
        lemma_path_reaches_root(above, index / 2, (depth - 1) as nat);
    }
}

/// The root is a function of the leaves: two roots computed for the same
/// leaves are the same 32 bytes.
pub proof fn lemma_root_deterministic(leaves: Seq<[u8; 32]>, first: [u8; 32], second: [u8; 32])
    requires
        first@ == root_spec(digests(leaves)),
        second@ == root_spec(digests(leaves)),
    ensures
        first == second,
{
    assert(first@ =~= second@);
    assert(first =~= second);
}

/// The root of a set with one leaf is that leaf.
pub proof fn lemma_single_leaf_root(leaf: Seq<u8>)
    ensures
        root_spec(seq![leaf]) == leaf,
{
}

/// A set of four leaves: the root combines the two pairs, and the proof of
/// the third leaf holds the fourth leaf and the parent of the first two.
pub proof fn lemma_four_leaves(l1: Seq<u8>, l2: Seq<u8>, l3: Seq<u8>, l4: Seq<u8>)
    ensures
        root_spec(seq![l1, l2, l3, l4]) == hash_pair_spec(
            hash_pair_spec(l1, l2),
            hash_pair_spec(l3, l4),
        ),
        proof_spec(seq![l1, l2, l3, l4], 2) == seq![l4, hash_pair_spec(l1, l2)],
{
    let leaves = seq![l1, l2, l3, l4];
    let pairs = parent_level(leaves);
    let top = parent_level(pairs);
    assert(pairs =~= seq![hash_pair_spec(l1, l2), hash_pair_spec(l3, l4)]);
    assert(top =~= seq![hash_pair_spec(pairs[0], pairs[1])]);
    reveal_with_fuel(root_from, 3);
    reveal_with_fuel(path_from, 3);
    assert(path_from(top, 0, 18) =~= Seq::<Seq<u8>>::empty());
    assert(path_from(pairs, 1, 19) =~= seq![pairs[0]] + path_from(top, 0, 18));
    assert(proof_spec(leaves, 2) =~= seq![l4, hash_pair_spec(l1, l2)]);
}

/// Round trip: the inclusion proof of any leaf within the capacity of the
/// tree verifies for that leaf, its index and the root of the same leaves.
pub proof fn lemma_proof_round_trip(leaves: Seq<Seq<u8>>, index: int)
    requires
        0 <= index < leaves.len(),
        index < 1048576,
    ensures
        verifies(leaves[index], proof_spec(leaves, index), index, root_spec(leaves)),
{
    assert(span(20) == 1048576) by {
        reveal_with_fuel(span, 21);
    }
    lemma_path_reaches_root(leaves, index, TREE_DEPTH as nat);
}

/// A proof that verifies for one root verifies for no other root.
pub proof fn lemma_wrong_root_rejected(
    leaf: Seq<u8>,
    proof: Seq<Seq<u8>>,
    index: int,
    root: Seq<u8>,
    other_root: Seq<u8>,
)
    requires
        verifies(leaf, proof, index, root),
        other_root != root,
    ensures
        !verifies(leaf, proof, index, other_root),
{
}

/// Whether every digest of `path` has 32 bytes.
pub open spec fn well_sized(path: Seq<Seq<u8>>) -> bool {
    forall|k: int| 0 <= k < path.len() ==> (#[trigger] path[k]).len() == 32
}

/// Climbing from two different nodes along the same path ends at two
/// different nodes.
proof fn lemma_climb_keeps_apart(one: Seq<u8>, two: Seq<u8>, path: Seq<Seq<u8>>, index: int)
    requires
        one.len() == 32,
        two.len() == 32,
        well_sized(path),
        one != two,
    ensures
        climb(one, path, index) != climb(two, path, index),
    decreases path.len(),
{
    if path.len() > 0 {
        let sibling = path[0];
        assert(sibling.len() == 32);
        let next_one = climb_step(one, sibling, index);
        let next_two = climb_step(two, sibling, index);
        lemma_digest_of_halves(one, sibling);
        lemma_digest_of_halves(two, sibling);
        lemma_digest_of_halves(sibling, one);
        lemma_digest_of_halves(sibling, two);
        if index % 2 == 0 {
            lemma_nullifier_binds_commitment(one, two, sibling);
        } else {
            lemma_nullifier_binds_secret(sibling, one, two);
        }
        assert(next_one != next_two);
        let rest = path.skip(1);
        assert forall|k: int| 0 <= k < rest.len() implies (#[trigger] rest[k]).len() == 32 by {
            assert(rest[k] == path[k + 1]);
        }
        lemma_climb_keeps_apart(next_one, next_two, rest, index / 2);
    }
}

/// A proof that verifies for one leaf verifies for no other leaf.
pub proof fn lemma_wrong_leaf_rejected(
    leaf: Seq<u8>,
    other_leaf: Seq<u8>,
    proof: Seq<Seq<u8>>,
    index: int,
    root: Seq<u8>,
)
    requires
        leaf.len() == 32,
        other_leaf.len() == 32,
        well_sized(proof),
        verifies(leaf, proof, index, root),
        other_leaf != leaf,
    ensures
        !verifies(other_leaf, proof, index, root),
{
    lemma_climb_keeps_apart(leaf, other_leaf, proof, index);
}

/// The hash engine in use does not tell its operands apart: the parent of
/// two nodes is the same in either order. The position of a leaf is
/// therefore not bound by its inclusion proof.
pub proof fn lemma_hash_pair_commutes(left: Seq<u8>, right: Seq<u8>)
    requires
        left.len() == 32,
        right.len() == 32,
    ensures
        hash_pair_spec(left, right) == hash_pair_spec(right, left),
{
    lemma_digest_of_halves(left, right);
    lemma_digest_of_halves(right, left);
    assert forall|lane: int| 0 <= lane < 32 implies hash_pair_spec(left, right)[lane]
        == hash_pair_spec(right, left)[lane] by {
        let a: u8 = left[lane];
        let b: u8 = right[lane];
        assert(a ^ b == b ^ a) by (bit_vector);
    }
    assert(hash_pair_spec(left, right) =~= hash_pair_spec(right, left));
}

/// With the hash engine in use, the node that a climb reaches does not
/// depend on the position it starts from: an inclusion proof that verifies
/// for one index verifies for every index.
pub proof fn lemma_index_is_not_bound(
    leaf: Seq<u8>,
    proof: Seq<Seq<u8>>,
    index: int,
    other_index: int,
)
    requires
        leaf.len() == 32,
        well_sized(proof),
    ensures
        climb(leaf, proof, index) == climb(leaf, proof, other_index),
    decreases proof.len(),
{
    if proof.len() > 0 {
        let sibling = proof[0];
        assert(sibling.len() == 32);
        lemma_hash_pair_commutes(leaf, sibling);
        lemma_digest_of_halves(leaf, sibling);
        let next = climb_step(leaf, sibling, index);
        assert(next == climb_step(leaf, sibling, other_index));
        let rest = proof.skip(1);
        assert forall|k: int| 0 <= k < rest.len() implies (#[trigger] rest[k]).len() == 32 by {
            assert(rest[k] == proof[k + 1]);
        }
        lemma_index_is_not_bound(next, rest, index / 2, other_index / 2);
    }
}

} // verus!
