use vstd::prelude::*;

use crate::header::Slot;
use crate::merkle::{
    compute_cached_tree_from_leafs, get_merkle_path, halves_evenly, is_cached_tree, is_parent_level,
    leaf_chain, merkle_path_spec, subtree_leaves, subtree_position, FieldBytes, MerkleNode,
};

verus! {

/// Two to the power `d`.
pub open spec fn two_pow(d: nat) -> nat
    decreases d,
{
    if d == 0 {
        1
    } else {
        2 * two_pow((d - 1) as nat)
    }
}

proof fn lemma_two_pow_halves(d: nat)
    ensures
        halves_evenly(two_pow(d)),
        two_pow(d) >= 1,
    decreases d,
{
    if d > 0 {
        lemma_two_pow_halves((d - 1) as nat);
        assert(two_pow(d) / 2 == two_pow((d - 1) as nat));
    }
}

proof fn lemma_two_pow_increases(a: nat, b: nat)
    requires
        a < b,
    ensures
        two_pow(a) < two_pow(b),
    decreases b,
{
    lemma_two_pow_halves(a);
    if a + 1 < b {
        lemma_two_pow_increases(a, (b - 1) as nat);
    }
}

/// Below level `k` of a tree built over `leaves`, each level doubles: the
/// leaves count `tree[k].len()` times `2^(last - k)`.
proof fn lemma_level_sizes<T, F: Fn(T, T) -> T>(compress: F, leaves: Seq<T>, tree: Seq<Seq<T>>, k: int)
    requires
        is_cached_tree(compress, leaves, tree),
        0 <= k < tree.len(),
    ensures
        tree[k].len() * two_pow((tree.len() - 1 - k) as nat) == leaves.len(),
    decreases tree.len() - k,
{
    if k < tree.len() - 1 {
        lemma_level_sizes(compress, leaves, tree, k + 1);
        assert(is_parent_level(compress, tree[k + 1], tree[k]));
        let e = (tree.len() - 1 - k) as nat;
        assert(two_pow(e) == 2 * two_pow((e - 1) as nat));
        assert(tree[k].len() * two_pow(e) == tree[k + 1].len() * two_pow((e - 1) as nat))
            by (nonlinear_arith)
            requires
                tree[k + 1].len() == 2 * tree[k].len(),
                two_pow(e) == 2 * two_pow((e - 1) as nat),
        ;
    } else {
        assert(tree[k] == tree.last());
        assert(two_pow(0) == 1);
        assert(tree[k].len() * 1 == tree[k].len());
    }
}

/// A tree built over `2^d` leaves has `d + 1` levels.
pub proof fn lemma_cached_tree_depth<T, F: Fn(T, T) -> T>(
    compress: F,
    leaves: Seq<T>,
    tree: Seq<Seq<T>>,
    d: nat,
)
    requires
        is_cached_tree(compress, leaves, tree),
        leaves.len() == two_pow(d),
    ensures
        tree.len() == d + 1,
{
    lemma_level_sizes(compress, leaves, tree, 0);
    lemma_two_pow_halves(d);
    let e = (tree.len() - 1) as nat;
    lemma_two_pow_halves(e);
    assert(tree[0].len() == 1) by (nonlinear_arith)
        requires
            tree[0].len() * two_pow(e) == two_pow(d),
            tree[0].len() <= 1,
            two_pow(d) >= 1,
    ;
    if e < d {
        lemma_two_pow_increases(e, d);
    } else if d < e {
        lemma_two_pow_increases(d, e);
    }
}

/// `2^d`, which must fit in a `usize`.
pub fn two_pow_usize(d: usize) -> (r: usize)
    requires
        two_pow(d as nat) <= usize::MAX,
    ensures
        r == two_pow(d as nat),
{
    let mut r: usize = 1;
    let mut i: usize = 0;
    while i < d
        invariant
            0 <= i <= d,
            r == two_pow(i as nat),
            two_pow(d as nat) <= usize::MAX,
        decreases d - i,
    {
        proof {
            lemma_two_pow_halves(i as nat);
            if i + 1 < d {
                lemma_two_pow_increases((i + 1) as nat, d as nat);
            }
        }
        r = r * 2;
        i = i + 1;
    }
    r
}

/// `path` is the Merkle path of leaf `index` in some tree built with
/// `compress` over the `2^depth` leaves grown from `seed`.
pub open spec fn subtree_path<F: Fn(FieldBytes, FieldBytes) -> FieldBytes>(
    compress: F,
    seed: FieldBytes,
    depth: nat,
    index: nat,
    path: Seq<MerkleNode<FieldBytes>>,
) -> bool {
    exists|leaves: Seq<FieldBytes>, tree: Seq<Seq<FieldBytes>>|
        #![trigger merkle_path_spec(tree, index, depth), leaves.len()]
        {
            &&& leaves.map_values(|l: FieldBytes| l@) == leaf_chain(seed@, two_pow(depth))
            &&& is_cached_tree(compress, leaves, tree)
            &&& path == merkle_path_spec(tree, index, depth)
        }
}

/// A lower subtree of the slot-secret tree: `2^tree_depth` leaves grown
/// from `seed`.
#[derive(Clone, Copy, Debug)]
pub struct MerklePolSubtree {
    pub seed: FieldBytes,
    pub tree_depth: usize,
}

impl MerklePolSubtree {
    /// The subtree of `2^tree_depth` leaves grown from `seed`.
    pub fn new(seed: FieldBytes, tree_depth: usize) -> (s: MerklePolSubtree)
        ensures
            s.seed == seed,
            s.tree_depth == tree_depth,
    {
        MerklePolSubtree { seed, tree_depth }
    }

    /// The depth of the subtree.
    pub fn depth(&self) -> (d: usize)
        ensures
            d == self.tree_depth,
    {
        self.tree_depth
    }

    /// The Merkle path of leaf `index`: the leaves are grown from the seed,
    /// the tree is built over them with `compress`, and the path is read
    /// from the root down.
    pub fn merkle_path_for_index<F: Fn(FieldBytes, FieldBytes) -> FieldBytes>(
        &self,
        index: usize,
        compress: &F,
    ) -> (r: Vec<MerkleNode<FieldBytes>>)
        requires
            two_pow(self.tree_depth as nat) <= usize::MAX,
            forall|a: FieldBytes, b: FieldBytes| compress.requires((a, b)),
        ensures
            subtree_path(*compress, self.seed, self.tree_depth as nat, index as nat, r@),
            self.tree_depth >= 2 && index == 0 ==> r@.len() > 0,
    {
        let count = two_pow_usize(self.tree_depth);
        let leaves = subtree_leaves(self.seed, count);
        proof {
            lemma_two_pow_halves(self.tree_depth as nat);
            assert(leaves@.len() == leaf_chain(self.seed@, count as nat).len());
            lemma_leaf_chain_len(self.seed@, count as nat);
        }
        let tree = compute_cached_tree_from_leafs(&leaves, compress);
        let ghost levels = tree@.map_values(|l: Vec<FieldBytes>| l@);
        proof {
            lemma_cached_tree_depth(*compress, leaves@, levels, self.tree_depth as nat);
            if self.tree_depth >= 2 {
                let d = self.tree_depth as nat;
                let m = (d - 1) as nat;
                lemma_level_sizes(*compress, leaves@, levels, m as int);
                assert(two_pow(0) == 1);
                assert(two_pow(1) == 2);
                if m > 1 {
                    lemma_two_pow_increases(1, m);
                }
                assert(levels[m as int].len() * two_pow(1) == leaves@.len());
                assert(two_pow(d) == 2 * two_pow(m));
                assert(levels[m as int].len() >= 2);
                assert(merkle_path_spec(levels, 0, d).len() > 0);
            }
        }
        let path = get_merkle_path(&tree, index, self.tree_depth);
        proof {
            assert(levels == tree@.map_values(|l: Vec<FieldBytes>| l@));
            assert(leaves@.len() == two_pow(self.tree_depth as nat));
        }
        path
    }
}

proof fn lemma_leaf_chain_len(seed: Seq<u8>, n: nat)
    ensures
        leaf_chain(seed, n).len() == n,
    decreases n,
{
    if n > 1 {
        lemma_leaf_chain_len(seed, (n - 1) as nat);
    }
}

/// The levels of a tree, as sequences.
pub open spec fn levels_of(tree: Seq<Vec<FieldBytes>>) -> Seq<Seq<FieldBytes>> {
    tree.map_values(|l: Vec<FieldBytes>| l@)
}

/// The value that a Merkle path node carries.
pub open spec fn node_item<T>(node: MerkleNode<T>) -> T {
    match node {
        MerkleNode::Left(v) => v,
        MerkleNode::Right(v) => v,
    }
}

/// The value that a Merkle path node carries.
pub fn item<T: Copy>(node: &MerkleNode<T>) -> (v: T)
    ensures
        v == node_item(*node),
{
    match node {
        MerkleNode::Left(v) => *v,
        MerkleNode::Right(v) => *v,
    }
}

/// The slot-secret Merkle tree of a leader, cached: the top levels are
/// kept, and below them the lower subtrees are recomputed on demand from
/// their seeds.
#[derive(Clone, Debug)]
pub struct MerklePolCache {
    /// The cached top levels (level 0 holds the root).
    pub cached_tree: Vec<Vec<FieldBytes>>,
    /// The lower subtrees, left to right.
    pub lower_sub_trees: Vec<MerklePolSubtree>,
    pub tree_depth: usize,
    pub starting_slot: Slot,
}

/// `root` is the first node of the path of leaf 0 in some subtree of depth
/// `depth` grown from `seed` (what stands for the subtree's root).
pub open spec fn is_subtree_root<F: Fn(FieldBytes, FieldBytes) -> FieldBytes>(
    compress: F,
    seed: FieldBytes,
    depth: nat,
    root: FieldBytes,
) -> bool {
    exists|path: Seq<MerkleNode<FieldBytes>>|
        #![trigger subtree_path(compress, seed, depth, 0, path)]
        {
            &&& subtree_path(compress, seed, depth, 0, path)
            &&& path.len() > 0
            &&& root == node_item(path[0])
        }
}

/// `roots` are the roots of the subtrees grown from `seeds`, in order.
pub open spec fn subtree_roots<F: Fn(FieldBytes, FieldBytes) -> FieldBytes>(
    compress: F,
    seeds: Seq<FieldBytes>,
    depth: nat,
    roots: Seq<FieldBytes>,
) -> bool {
    &&& roots.len() == seeds.len()
    &&& forall|i: int|
        0 <= i < seeds.len() ==> #[trigger] is_subtree_root(compress, seeds[i], depth, roots[i])
}

impl MerklePolCache {
    /// Builds the cache: one lower subtree of depth `tree_depth -
    /// cache_depth` per seed (the `2^cache_depth` seeds drawn from the
    /// leader's seed), and the top levels built with `compress` over the
    /// subtrees' roots.
    pub fn new<F: Fn(FieldBytes, FieldBytes) -> FieldBytes>(
        subtree_seeds: &Vec<FieldBytes>,
        starting_slot: Slot,
        tree_depth: usize,
        cache_depth: usize,
        compress: &F,
    ) -> (c: MerklePolCache)
        requires
            cache_depth + 2 <= tree_depth,
            two_pow(cache_depth as nat) <= usize::MAX,
            two_pow((tree_depth - cache_depth) as nat) <= usize::MAX,
            subtree_seeds@.len() == two_pow(cache_depth as nat),
            forall|a: FieldBytes, b: FieldBytes| compress.requires((a, b)),
        ensures
            c.tree_depth == tree_depth,
            c.starting_slot == starting_slot,
            c.lower_sub_trees@.len() == subtree_seeds@.len(),
            forall|i: int|
                0 <= i < subtree_seeds@.len() ==> #[trigger] c.lower_sub_trees@[i] == MerklePolSubtree::new_spec(
                    subtree_seeds@[i],
                    (tree_depth - cache_depth) as usize,
                ),
            exists|roots: Seq<FieldBytes>|
                #![trigger is_cached_tree(*compress, roots, levels_of(c.cached_tree@))]
                {
                    &&& subtree_roots(*compress, subtree_seeds@, (tree_depth - cache_depth) as nat, roots)
                    &&& is_cached_tree(*compress, roots, levels_of(c.cached_tree@))
                },
    {
        let sub_tree_depth = tree_depth - cache_depth;
        let mut lower_sub_trees: Vec<MerklePolSubtree> = Vec::new();
        let mut roots: Vec<FieldBytes> = Vec::new();
        let mut i: usize = 0;
        while i < subtree_seeds.len()
            invariant
                0 <= i <= subtree_seeds@.len(),
                sub_tree_depth == tree_depth - cache_depth,
                sub_tree_depth >= 2,
                two_pow(sub_tree_depth as nat) <= usize::MAX,
                forall|a: FieldBytes, b: FieldBytes| compress.requires((a, b)),
                lower_sub_trees@.len() == i,
                forall|j: int|
                    0 <= j < i ==> #[trigger] lower_sub_trees@[j] == MerklePolSubtree::new_spec(
                        subtree_seeds@[j],
                        sub_tree_depth,
                    ),
                subtree_roots(*compress, subtree_seeds@.take(i as int), sub_tree_depth as nat, roots@),
            decreases subtree_seeds@.len() - i,
        {
            let subtree = MerklePolSubtree::new(subtree_seeds[i], sub_tree_depth);
            let path = subtree.merkle_path_for_index(0, compress);
            let root = item(&path[0]);
            let ghost before = roots@;
            lower_sub_trees.push(subtree);
            roots.push(root);
            proof {
                let d = sub_tree_depth as nat;
                let old_seeds = subtree_seeds@.take(i as int);
                let seeds = subtree_seeds@.take(i + 1);
                assert forall|j: int| 0 <= j < seeds.len() implies #[trigger] is_subtree_root(
                    *compress,
                    seeds[j],
                    d,
                    roots@[j],
                ) by {
                    if j < i {
                        assert(seeds[j] == old_seeds[j]);
                        assert(roots@[j] == before[j]);
                        assert(is_subtree_root(*compress, old_seeds[j], d, before[j]));
                    } else {
                        assert(seeds[j] == subtree_seeds@[i as int]);
                        assert(subtree_path(*compress, seeds[j], d, 0, path@));
                    }
                }
                assert(roots@.len() == seeds.len());
                assert(subtree_roots(*compress, seeds, d, roots@));
            }
            i = i + 1;
        }
        proof {
            assert(subtree_seeds@.take(i as int) =~= subtree_seeds@);
            lemma_two_pow_halves(cache_depth as nat);
        }
        let cached_tree = compute_cached_tree_from_leafs(&roots, compress);
        assert(levels_of(cached_tree@) == cached_tree@.map_values(|l: Vec<FieldBytes>| l@));
        assert(subtree_roots(*compress, subtree_seeds@, sub_tree_depth as nat, roots@));
        assert(is_cached_tree(*compress, roots@, levels_of(cached_tree@)));
        let c = MerklePolCache { cached_tree, lower_sub_trees, tree_depth, starting_slot };
        assert(is_cached_tree(*compress, roots@, levels_of(c.cached_tree@)));
        assert(subtree_roots(*compress, subtree_seeds@, (tree_depth - cache_depth) as nat, roots@));
        c
    }

    /// The number of cached levels.
    pub fn cache_depth(&self) -> (n: usize)
        ensures
            n == self.cached_tree@.len(),
    {
        self.cached_tree.len()
    }

    /// The root slot secret: the cached root.
    pub fn root_slot_secret(&self) -> (r: FieldBytes)
        requires
            self.cached_tree@.len() > 0,
            self.cached_tree@[0]@.len() > 0,
        ensures
            r == self.cached_tree@[0]@[0],
    {
        self.cached_tree[0][0]
    }

    /// The Merkle path of slot `index`: its path in the cached levels
    /// (over all of them), followed by its path in the lower subtree that
    /// holds it, whose leaf count is taken as `2^(tree_depth - levels)`.
    pub fn merkle_path_for_index<F: Fn(FieldBytes, FieldBytes) -> FieldBytes>(
        &self,
        index: usize,
        compress: &F,
    ) -> (r: Vec<MerkleNode<FieldBytes>>)
        requires
            self.cached_tree@.len() <= self.tree_depth,
            two_pow((self.tree_depth - self.cached_tree@.len()) as nat) <= usize::MAX,
            (index as nat) / two_pow((self.tree_depth - self.cached_tree@.len()) as nat)
                < self.lower_sub_trees@.len(),
            forall|i: int|
                0 <= i < self.lower_sub_trees@.len() ==> two_pow(
                    (#[trigger] self.lower_sub_trees@[i]).tree_depth as nat,
                ) <= usize::MAX,
            forall|a: FieldBytes, b: FieldBytes| compress.requires((a, b)),
        ensures
            ({
                let width = two_pow((self.tree_depth - self.cached_tree@.len()) as nat);
                let subtree = self.lower_sub_trees@[((index as nat) / width) as int];
                exists|lower: Seq<MerkleNode<FieldBytes>>|
                    #![trigger subtree_path(*compress, subtree.seed, subtree.tree_depth as nat, ((index as nat) % width) as nat, lower)]
                    {
                        &&& subtree_path(
                            *compress,
                            subtree.seed,
                            subtree.tree_depth as nat,
                            ((index as nat) % width) as nat,
                            lower,
                        )
                        &&& r@ == merkle_path_spec(
                            levels_of(self.cached_tree@),
                            index as nat,
                            self.cached_tree@.len() as nat,
                        ) + lower
                    }
            }),
    {
        let mut cached_path = get_merkle_path(&self.cached_tree, index, self.cached_tree.len());
        let subtree_leaf_length = two_pow_usize(self.tree_depth - self.cached_tree.len());
        proof {
            lemma_two_pow_halves((self.tree_depth - self.cached_tree@.len()) as nat);
        }
        let (subtree_index, leaf_index) = subtree_position(index, subtree_leaf_length);
        let current_path = self.lower_sub_trees[subtree_index].merkle_path_for_index(
            leaf_index,
            compress,
        );
        let ghost before = cached_path@;
        let mut j: usize = 0;
        while j < current_path.len()
            invariant
                0 <= j <= current_path@.len(),
                cached_path@ == before + current_path@.take(j as int),
            decreases current_path@.len() - j,
        {
            cached_path.push(current_path[j]);
            j = j + 1;
            assert(cached_path@ =~= before + current_path@.take(j as int));
        }
        assert(current_path@.take(j as int) =~= current_path@);
        cached_path
    }
}

impl MerklePolSubtree {
    /// See [`MerklePolSubtree::new`].
    pub open spec fn new_spec(seed: FieldBytes, tree_depth: usize) -> MerklePolSubtree {
        MerklePolSubtree { seed, tree_depth }
    }
}

} // verus!
