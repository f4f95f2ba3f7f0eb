use blake2::{Blake2b512, Digest};
use nomos_chain::merkle::{
    compute_cached_tree_from_leafs, get_merkle_path, leader_tree_seed, next_leaf, subtree_leaves,
    subtree_position, MerkleNode,
};

#[test]
fn merkle_path_of_a_cached_tree() {
    // Level 0 holds the root, level 2 the leaves.
    let tree = vec![vec![100u32], vec![10, 11], vec![1, 2, 3, 4]];
    assert_eq!(
        get_merkle_path(&tree, 2, 3),
        vec![MerkleNode::Left(10), MerkleNode::Right(4)]
    );
    assert_eq!(
        get_merkle_path(&tree, 1, 3),
        vec![MerkleNode::Right(11), MerkleNode::Left(1)]
    );
    // Depth 0 gives an empty path.
    assert_eq!(get_merkle_path(&tree, 1, 0), vec![]);
}

#[test]
fn merkle_path_skips_missing_siblings() {
    let tree = vec![vec![9u32], vec![5, 6, 7]];
    // Leaf 2 has no sibling on its level; its parent's sibling is the root
    // level's only node.
    assert_eq!(get_merkle_path(&tree, 2, 2), vec![MerkleNode::Left(9)]);
    assert_eq!(get_merkle_path(&tree, 0, 2), vec![MerkleNode::Right(6)]);
}

#[test]
fn cached_tree_from_leafs() {
    let tree = compute_cached_tree_from_leafs(&vec![1u64, 2, 3, 4], &|a: u64, b: u64| a * 10 + b);
    assert_eq!(tree, vec![vec![154], vec![12, 34], vec![1, 2, 3, 4]]);
    let single = compute_cached_tree_from_leafs(&vec![5u64], &|a: u64, b: u64| a + b);
    assert_eq!(single, vec![vec![5]]);
    let empty = compute_cached_tree_from_leafs(&Vec::<u64>::new(), &|a: u64, b: u64| a + b);
    assert_eq!(empty, vec![Vec::<u64>::new()]);
}

#[test]
fn path_through_a_computed_tree() {
    let tree = compute_cached_tree_from_leafs(&vec![1u64, 2, 3, 4], &|a: u64, b: u64| a * 10 + b);
    assert_eq!(
        get_merkle_path(&tree, 3, tree.len()),
        vec![MerkleNode::Left(12), MerkleNode::Left(3)]
    );
}

#[test]
fn subtree_positions() {
    assert_eq!(subtree_position(10, 4), (2, 2));
    assert_eq!(subtree_position(3, 4), (0, 3));
    assert_eq!(subtree_position(0, 1), (0, 0));
}

#[test]
fn blake2b512_of_the_empty_input() {
    let expected = "786a02f742015903c6c6fd852552d272912f4740e15847618a86e217f71f5419d25e1031afee585313896444934eb04b903a685b1448b755d56f701afe9be2ce";
    let digest = Blake2b512::digest(b"");
    let hex: String = digest.iter().map(|b| format!("{b:02x}")).collect();
    assert_eq!(hex, expected);
}

#[test]
fn leader_seed_is_the_digest_of_the_public_key() {
    let pk = [7u8; 32];
    let seed = leader_tree_seed(&pk);
    let expected: [u8; 64] = Blake2b512::digest(pk).into();
    assert_eq!(seed, expected);
    assert_ne!(seed[..32], pk[..]);
}

#[test]
fn leaves_chain_through_truncated_digests() {
    let seed = [1u8; 32];
    let next = next_leaf(&seed);
    let digest = Blake2b512::digest(seed);
    assert_eq!(next[..31], digest[..31]);
    assert_eq!(next[31], 0);
    assert_ne!(next, seed);
    let leaves = subtree_leaves(seed, 3);
    assert_eq!(leaves.len(), 3);
    assert_eq!(leaves[0], seed);
    assert_eq!(leaves[1], next);
    assert_eq!(leaves[2], next_leaf(&next));
    assert!(subtree_leaves(seed, 0).is_empty());
}
