use vstd::prelude::*;

use blake2::{Blake2b512, Digest};

verus! {

/// The maximal depth of the slot-secret Merkle tree.
pub const MAX_TREE_DEPTH: u8 = 25;

/// One step of a Merkle path: the sibling's value and its side.
#[derive(Clone, Copy, Debug, PartialEq, Eq)]
pub enum MerkleNode<T> {
    Left(T),
    Right(T),
}

/// The sibling position of a node.
pub open spec fn sibling(index: nat) -> nat {
    if index % 2 == 0 {
        index + 1
    } else {
        (index - 1) as nat
    }
}

/// The Merkle path of leaf `index` in the levels `0..depth` of
/// `cached_tree` (level 0 is the root): for each level from the root down,
/// the sibling of the node on the way to the leaf, where that sibling exists.
pub open spec fn merkle_path_spec<T>(cached_tree: Seq<Seq<T>>, index: nat, depth: nat) -> Seq<
    MerkleNode<T>,
>
    decreases depth,
{
    if depth == 0 {
        Seq::empty()
    } else {
        let level = (depth - 1) as int;
        let sib = sibling(index);
        let upper = merkle_path_spec(cached_tree, index / 2, (depth - 1) as nat);
        if sib < cached_tree[level].len() {
            upper.push(
                if sib % 2 == 0 {
                    MerkleNode::Left(cached_tree[level][sib as int])
                } else {
                    MerkleNode::Right(cached_tree[level][sib as int])
                },
            )
        } else {
            upper
        }
    }
}

/// Computes the Merkle path of leaf `index` in a cached tree of `tree_depth`
/// levels (level 0 holds the root), ordered from the root down.
pub fn get_merkle_path<T: Copy>(cached_tree: &Vec<Vec<T>>, index: usize, tree_depth: usize) -> (r:
    Vec<MerkleNode<T>>)
    requires
        tree_depth <= cached_tree@.len(),
    ensures
        r@ == merkle_path_spec(
            cached_tree@.map_values(|l: Vec<T>| l@),
            index as nat,
            tree_depth as nat,
        ),
{
    let ghost tree = cached_tree@.map_values(|l: Vec<T>| l@);
    let mut path: Vec<MerkleNode<T>> = Vec::new();
    let mut current_index = index;
    let mut level = tree_depth;
    let ghost mut shift: nat = 0;
    while level > 0
        invariant
            level <= tree_depth <= cached_tree@.len(),
            tree == cached_tree@.map_values(|l: Vec<T>| l@),
            merkle_path_spec(tree, index as nat, tree_depth as nat) == merkle_path_spec(
                tree,
                current_index as nat,
                level as nat,
            ) + path@,
        decreases level,
    {
        level = level - 1;
        let sibling_index = if current_index % 2 == 0 {
            current_index + 1
        } else {
            current_index - 1
        };
        let ghost upper = merkle_path_spec(tree, (current_index / 2) as nat, level as nat);
        let ghost before = path@;
        assert(tree[level as int] == cached_tree@[level as int]@);
        if sibling_index < cached_tree[level].len() {
            let value = cached_tree[level][sibling_index];
            let node = if sibling_index % 2 == 0 {
                MerkleNode::Left(value)
            } else {
                MerkleNode::Right(value)
            };
            path.insert(0, node);
            assert(merkle_path_spec(tree, current_index as nat, (level + 1) as nat) == upper.push(
                node,
            ));
            assert(upper.push(node) + before =~= upper + path@);
        } else {
            assert(merkle_path_spec(tree, current_index as nat, (level + 1) as nat) == upper);
        }
        current_index = current_index / 2;
    }
    assert(merkle_path_spec(tree, current_index as nat, 0) + path@ =~= path@);
    path
}

/// Whether a level of `n` nodes, and every level above it, pairs up
/// evenly until a single root is left.
pub open spec fn halves_evenly(n: nat) -> bool
    decreases n,
{
    if n <= 1 {
        true
    } else {
        n % 2 == 0 && halves_evenly(n / 2)
    }
}

/// `upper` is the level above `lower`: each of its nodes is what
/// `compress` gives for the two nodes below it.
pub open spec fn is_parent_level<T, F: Fn(T, T) -> T>(
    compress: F,
    lower: Seq<T>,
    upper: Seq<T>,
) -> bool {
    &&& lower.len() == 2 * upper.len()
    &&& forall|i: int|
        0 <= i < upper.len() ==> compress.ensures((lower[2 * i], lower[2 * i + 1]), #[trigger] upper[i])
}

/// The levels of a tree built over `leaves`: level 0 holds the root, the
/// last level the leaves, and each level is the parent level of the one
/// below it.
pub open spec fn is_cached_tree<T, F: Fn(T, T) -> T>(
    compress: F,
    leaves: Seq<T>,
    tree: Seq<Seq<T>>,
) -> bool {
    &&& tree.len() >= 1
    &&& tree.last() == leaves
    &&& tree[0].len() <= 1
    &&& forall|k: int| 0 <= k < tree.len() - 1 ==> is_parent_level(compress, #[trigger] tree[k + 1], tree[k])
}

/// A copy of a level.
fn copy_level<T: Copy>(level: &Vec<T>) -> (r: Vec<T>)
    ensures
        r@ == level@,
{
    let mut r: Vec<T> = Vec::new();
    let mut i: usize = 0;
    while i < level.len()
        invariant
            0 <= i <= level@.len(),
            r@ == level@.take(i as int),
        decreases level@.len() - i,
    {
        r.push(level[i]);
        i = i + 1;
        assert(r@ =~= level@.take(i as int));
    }
    assert(level@.take(i as int) =~= level@);
    r
}

/// The level above `lower`, pairing its nodes with `compress`.
fn parent_level<T: Copy, F: Fn(T, T) -> T>(compress: &F, lower: &Vec<T>) -> (upper: Vec<T>)
    requires
        lower@.len() % 2 == 0,
        forall|a: T, b: T| compress.requires((a, b)),
    ensures
        is_parent_level(*compress, lower@, upper@),
{
    let mut upper: Vec<T> = Vec::new();
    let mut i: usize = 0;
    while i < lower.len() / 2
        invariant
            lower@.len() % 2 == 0,
            0 <= i <= lower@.len() / 2,
            upper@.len() == i,
            forall|a: T, b: T| compress.requires((a, b)),
            forall|j: int|
                0 <= j < i ==> compress.ensures((lower@[2 * j], lower@[2 * j + 1]), #[trigger] upper@[j]),
        decreases lower@.len() / 2 - i,
    {
        let node = compress(lower[2 * i], lower[2 * i + 1]);
        upper.push(node);
        i = i + 1;
    }
    upper
}

/// Builds every level of the tree over `leaves`, pairing nodes with
/// `compress` level after level until one root is left. Level 0 holds the
/// root and the last level the leaves. Each level must pair up evenly (the
/// number of leaves is a power of two, or at most one).
pub fn compute_cached_tree_from_leafs<T: Copy, F: Fn(T, T) -> T>(
    leaves: &Vec<T>,
    compress: &F,
) -> (tree: Vec<Vec<T>>)
    requires
        halves_evenly(leaves@.len() as nat),
        forall|a: T, b: T| compress.requires((a, b)),
    ensures
        is_cached_tree(*compress, leaves@, tree@.map_values(|l: Vec<T>| l@)),
{
    let mut current: Vec<T> = copy_level(leaves);
    let mut tree: Vec<Vec<T>> = Vec::new();
    tree.push(copy_level(&current));
    assert(tree@.map_values(|l: Vec<T>| l@) =~= seq![current@]);
    while current.len() > 1
        invariant
            halves_evenly(current@.len() as nat),
            forall|a: T, b: T| compress.requires((a, b)),
            tree@.len() >= 1,
            tree@[0]@ == current@,
            tree@.last()@ == leaves@,
            forall|k: int|
                0 <= k < tree@.len() - 1 ==> is_parent_level(*compress, #[trigger] tree@[k + 1]@, tree@[k]@),
        decreases current@.len(),
    {
        let upper = parent_level(compress, &current);
        let ghost before = tree@;
        tree.insert(0, copy_level(&upper));
        proof {
            assert(tree@[1]@ == current@);
            assert forall|k: int| 0 <= k < tree@.len() - 1 implies is_parent_level(
                *compress,
                #[trigger] tree@[k + 1]@,
                tree@[k]@,
            ) by {
                if k == 0 {
                    assert(tree@[0]@ == upper@);
                    assert(is_parent_level(*compress, current@, upper@));
                } else {
                    assert(is_parent_level(*compress, before[(k - 1) + 1]@, before[k - 1]@));
                    assert(tree@[k] == before[k - 1]);
                    assert(tree@[k + 1] == before[k]);
                }
            }
        }
        current = upper;
    }
    assert(tree@.map_values(|l: Vec<T>| l@).last() == tree@.last()@);
    tree
}

/// Where leaf `index` of the whole tree lies: the lower subtree that holds
/// it and its position in that subtree, for subtrees of
/// `subtree_leaf_length` leaves.
pub fn subtree_position(index: usize, subtree_leaf_length: usize) -> (r: (usize, usize))
    requires
        subtree_leaf_length > 0,
    ensures
        r.0 == index / subtree_leaf_length,
        r.1 == index % subtree_leaf_length,
        r.0 * subtree_leaf_length + r.1 == index,
{
    let r = (index / subtree_leaf_length, index % subtree_leaf_length);
    assert(r.0 * subtree_leaf_length + r.1 == index) by (nonlinear_arith)
        requires
            r.0 == index / subtree_leaf_length,
            r.1 == index % subtree_leaf_length,
            subtree_leaf_length > 0,
    ;
    r
}

/// The BLAKE2b-512 digest of a byte string.
pub uninterp spec fn blake2b512_digest(data: Seq<u8>) -> Seq<u8>;

/// Computes BLAKE2b-512 (`blake2::Blake2b512`, through `Digest::digest`):
/// the result is the digest of `data` as the name `blake2b512_digest`
/// gives it, and is 64 bytes long.
#[verifier::external_body]
fn blake2b512(data: &[u8]) -> (r: [u8; 64])
    ensures
        r@ == blake2b512_digest(data@),
        r@.len() == 64,
{
    Blake2b512::digest(data).into()
}

/// A field element, by its 32-byte little-endian canonical encoding.
pub type FieldBytes = [u8; 32];

/// The field element read from the first 31 bytes of a digest: those
/// bytes followed by a zero byte (any 31-byte value is below the modulus).
///
/// This rests on an assumption about the `groth16` crate, which is not
/// among the outside crates of this library: that `fr_from_bytes_unchecked`
/// reads its bytes as a little-endian integer, and that `fr_to_bytes` gives
/// back the 32-byte little-endian encoding of that element, so that the two
/// together amount to the 31 bytes followed by a zero byte.
pub open spec fn field_from_digest(digest: Seq<u8>) -> Seq<u8> {
    digest.take(31).push(0u8)
}

/// The field element that follows `seed` in the leaf chain of a lower
/// subtree: the first 31 bytes of the BLAKE2b-512 digest of its encoding.
pub fn next_leaf(seed: &FieldBytes) -> (r: FieldBytes)
    ensures
        r@ == field_from_digest(blake2b512_digest(seed@)),
{
    let digest = blake2b512(seed.as_slice());
    let mut out = [0u8; 32];
    let mut i: usize = 0;
    while i < 31
        invariant
            0 <= i <= 31,
            digest@.len() == 64,
            out@.len() == 32,
            out@[31] == 0u8,
            forall|j: int| 0 <= j < i ==> #[trigger] out@[j] == digest@[j],
        decreases 31 - i,
    {
        out[i] = digest[i];
        i = i + 1;
    }
    assert(out@ =~= field_from_digest(blake2b512_digest(seed@)));
    out
}

/// The leaf chain of a lower subtree: `seed`, then each leaf followed by
/// its [`next_leaf`].
pub open spec fn leaf_chain(seed: Seq<u8>, n: nat) -> Seq<Seq<u8>>
    decreases n,
{
    if n == 0 {
        Seq::empty()
    } else if n == 1 {
        seq![seed]
    } else {
        let prev = leaf_chain(seed, (n - 1) as nat);
        prev.push(field_from_digest(blake2b512_digest(prev.last())))
    }
}

/// The first `count` leaves of the lower subtree grown from `seed`.
pub fn subtree_leaves(seed: FieldBytes, count: usize) -> (r: Vec<FieldBytes>)
    ensures
        r@.map_values(|l: FieldBytes| l@) == leaf_chain(seed@, count as nat),
{
    let mut leaves: Vec<FieldBytes> = Vec::new();
    if count == 0 {
        assert(leaves@.map_values(|l: FieldBytes| l@) =~= leaf_chain(seed@, 0));
        return leaves;
    }
    leaves.push(seed);
    assert(leaves@.map_values(|l: FieldBytes| l@) =~= leaf_chain(seed@, 1));
    let mut current = seed;
    while leaves.len() < count
        invariant
            1 <= leaves@.len() <= count,
            current == leaves@.last(),
            leaves@.map_values(|l: FieldBytes| l@) == leaf_chain(seed@, leaves@.len() as nat),
        decreases count - leaves@.len(),
    {
        let ghost before = leaves@;
        let next = next_leaf(&current);
        leaves.push(next);
        proof {
            let n = leaves@.len() as nat;
            let prev = leaf_chain(seed@, (n - 1) as nat);
            assert(prev.last() == current@);
            assert(leaves@.map_values(|l: FieldBytes| l@) =~= prev.push(next@));
        }
        current = next;
    }
    leaves
}

/// The seed of a leader's slot-secret tree: the BLAKE2b-512 digest of the
/// encoding of its public key.
pub fn leader_tree_seed(public_key: &FieldBytes) -> (r: [u8; 64])
    ensures
        r@ == blake2b512_digest(public_key@),
{
    blake2b512(public_key.as_slice())
}

} // verus!
