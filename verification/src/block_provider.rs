use vstd::prelude::*;

use crate::branches::{ancestor, can_step, path_prefix, walk_clear, Branch, Branches};
use crate::header::{HeaderId, Slot};

verus! {

/// The maximal number of blocks that one block stream carries.
pub const MAX_NUMBER_OF_BLOCKS: usize = 1000;

/// Why the engine walk between two blocks failed.
#[derive(Clone, Copy, Debug, PartialEq, Eq)]
pub enum InvalidStateReason {
    /// A genesis block (its own parent) was reached before the start block.
    GenesisReached(HeaderId),
    /// A block of the walk is not known to the engine.
    StartBlockUnreachable(HeaderId),
}

impl InvalidStateReason {
    /// What went wrong, in words.
    pub fn description(&self) -> (s: &'static str)
        ensures
            s@ == (match self {
                InvalidStateReason::GenesisReached(_) => "Genesis block reached before reaching start_block"@,
                InvalidStateReason::StartBlockUnreachable(_) => "Couldn't reach start_block"@,
            }),
    {
        match self {
            InvalidStateReason::GenesisReached(_) => "Genesis block reached before reaching start_block",
            InvalidStateReason::StartBlockUnreachable(_) => "Couldn't reach start_block",
        }
    }

    /// The start block that the walk was looking for.
    pub fn start_block(&self) -> (id: HeaderId)
        ensures
            id == (match self {
                InvalidStateReason::GenesisReached(s) => *s,
                InvalidStateReason::StartBlockUnreachable(s) => *s,
            }),
    {
        match self {
            InvalidStateReason::GenesisReached(s) => *s,
            InvalidStateReason::StartBlockUnreachable(s) => *s,
        }
    }
}

/// Errors while providing blocks to a peer.
#[derive(Clone, Copy, Debug, PartialEq, Eq)]
pub enum GetBlocksError {
    ChannelDropped,
    BlockNotFound(HeaderId),
    StartBlockNotFound,
    InvalidState(InvalidStateReason),
    SendError,
    ConversionError,
}

/// What the walk from `target` towards `start` yields, cut to `limit` blocks.
pub open spec fn engine_path_outcome(
    m: Map<HeaderId, Branch>,
    start: HeaderId,
    target: HeaderId,
    limit: nat,
    r: Result<Seq<HeaderId>, GetBlocksError>,
) -> bool {
    match r {
        Ok(p) => exists|n: nat|
            #![trigger ancestor(m, target, n)]
            {
                &&& walk_clear(m, start, target, n)
                &&& ancestor(m, target, n) == start
                &&& p == path_prefix(m, target, n, limit)
            },
        Err(GetBlocksError::InvalidState(InvalidStateReason::StartBlockUnreachable(s))) => {
            &&& s == start
            &&& exists|n: nat|
                #![trigger ancestor(m, target, n)]
                {
                    &&& walk_clear(m, start, target, n)
                    &&& ancestor(m, target, n) != start
                    &&& !m.contains_key(ancestor(m, target, n))
                }
        },
        Err(GetBlocksError::InvalidState(InvalidStateReason::GenesisReached(s))) => {
            &&& s == start
            &&& exists|n: nat|
                #![trigger ancestor(m, target, n)]
                {
                    &&& walk_clear(m, start, target, n)
                    &&& ancestor(m, target, n) != start
                    &&& m.contains_key(ancestor(m, target, n))
                    &&& m[ancestor(m, target, n)].parent == ancestor(m, target, n)
                }
        },
        _ => false,
    }
}

/// Computes the path of block ids from `start_block` to `target_block`
/// (parent before child), following parents in the engine from the target.
/// Only the first `limit` blocks of the path (those nearest `start_block`)
/// are kept.
///
/// Fails with `InvalidState` if a block of the walk is unknown, or if a
/// genesis block is reached, before `start_block` is.
pub fn compute_path_from_engine(
    branches: &Branches,
    start_block: HeaderId,
    target_block: HeaderId,
    limit: usize,
) -> (r: Result<Vec<HeaderId>, GetBlocksError>)
    requires
        branches.wf(),
        limit > 0,
    ensures
        engine_path_outcome(
            branches@,
            start_block,
            target_block,
            limit as nat,
            match r {
                Ok(v) => Ok(v@),
                Err(e) => Err(e),
            },
        ),
{
    let ghost m = branches@;
    let mut path: Vec<HeaderId> = Vec::new();
    let mut current = target_block;
    let ghost mut k: nat = 0;
    assert(path@ =~= Seq::new(0, |j: int| ancestor(m, target_block, (k - 1 - j) as nat)));
    loop
        invariant
            branches.wf(),
            m == branches@,
            limit > 0,
            current == ancestor(m, target_block, k),
            walk_clear(m, start_block, target_block, k),
            path@ =~= Seq::new(
                if k <= limit {
                    k
                } else {
                    limit as nat
                },
                |j: int| ancestor(m, target_block, (k - 1 - j) as nat),
            ),
        decreases (if m.contains_key(current) {
            m[current].length + 1
        } else {
            0
        }),
    {
        path.insert(0, current);
        if path.len() > limit {
            path.pop();
        }
        assert(path@ =~= path_prefix(m, target_block, k, limit as nat));
        if current == start_block {
            assert(ancestor(m, target_block, k) == start_block);
            return Ok(path);
        }
        match branches.get(&current) {
            Some(b) => {
                if b.parent == current {
                    assert(!m.contains_key(ancestor(m, target_block, k)) || m[ancestor(
                        m,
                        target_block,
                        k,
                    )].parent == ancestor(m, target_block, k));
                    return Err(
                        GetBlocksError::InvalidState(
                            InvalidStateReason::GenesisReached(start_block),
                        ),
                    );
                }
                proof {
                    assert(ancestor(m, target_block, k + 1) == b.parent);
                    assert forall|i: nat| i < k + 1 implies #[trigger] ancestor(
                        m,
                        target_block,
                        i,
                    ) != start_block && can_step(m, ancestor(m, target_block, i)) by {
                        if i < k {
                            assert(ancestor(m, target_block, i) != start_block && can_step(
                                m,
                                ancestor(m, target_block, i),
                            ));
                        }
                    }
                    branches.lemma_entry_facts(current);
                }
                current = b.parent;
                proof {
                    k = k + 1;
                    assert(path@ =~= Seq::new(
                        if k <= limit {
                            k
                        } else {
                            limit as nat
                        },
                        |j: int| ancestor(m, target_block, (k - 1 - j) as nat),
                    ));
                }
            },
            None => {
                assert(!m.contains_key(ancestor(m, target_block, k)));
                return Err(
                    GetBlocksError::InvalidState(
                        InvalidStateReason::StartBlockUnreachable(start_block),
                    ),
                );
            },
        }
    }
}

/// A path computed in the engine runs from the start block to the target,
/// parent before child, and holds at most `limit` blocks.
pub proof fn lemma_engine_path_parent_to_child(
    m: Map<HeaderId, Branch>,
    start: HeaderId,
    target: HeaderId,
    limit: nat,
    p: Seq<HeaderId>,
)
    requires
        limit > 0,
        engine_path_outcome(m, start, target, limit, Ok(p)),
    ensures
        0 < p.len() <= limit,
        p[0] == start,
        forall|j: int|
            0 <= j < p.len() - 1 ==> m.contains_key(#[trigger] p[j + 1]) && m[p[j + 1]].parent
                == p[j],
{
    let n = choose|n: nat|
        #![trigger ancestor(m, target, n)]
        {
            &&& walk_clear(m, start, target, n)
            &&& ancestor(m, target, n) == start
            &&& p == path_prefix(m, target, n, limit)
        };
    assert forall|j: int| 0 <= j < p.len() - 1 implies m.contains_key(#[trigger] p[j + 1])
        && m[p[j + 1]].parent == p[j] by {
        let i = (n - j - 1) as nat;
        assert(p[j + 1] == ancestor(m, target, i));
        assert(p[j] == ancestor(m, target, (i + 1) as nat));
        assert(can_step(m, ancestor(m, target, i)));
    }
}

/// A block of the storage, by id and slot.
#[derive(Clone, Copy, Debug, PartialEq, Eq)]
pub struct BlockRef {
    pub id: HeaderId,
    pub slot: Slot,
}

/// `i` is the last position holding the maximal key of `keys`.
pub open spec fn is_last_max(keys: Seq<u64>, i: int) -> bool {
    &&& 0 <= i < keys.len()
    &&& forall|j: int| 0 <= j < keys.len() ==> #[trigger] keys[j] <= keys[i]
    &&& forall|j: int| i < j < keys.len() ==> #[trigger] keys[j] < keys[i]
}

/// The position of the last maximal key, as `max_by_key` picks it.
pub fn last_max_index(keys: &Vec<u64>) -> (r: Option<usize>)
    ensures
        r is None <==> keys@.len() == 0,
        r matches Some(i) ==> is_last_max(keys@, i as int),
{
    if keys.len() == 0 {
        return None;
    }
    let mut best: usize = 0;
    let mut i: usize = 1;
    while i < keys.len()
        invariant
            1 <= i <= keys@.len(),
            best < i,
            forall|j: int| 0 <= j < i ==> #[trigger] keys@[j] <= keys@[best as int],
            forall|j: int| best < j < i ==> #[trigger] keys@[j] < keys@[best as int],
        decreases keys@.len() - i,
    {
        if keys[i] >= keys[best] {
            best = i;
        }
        i = i + 1;
    }
    Some(best)
}

/// The lengths of a sequence of branches.
pub open spec fn branch_lengths(s: Seq<Branch>) -> Seq<u64> {
    Seq::new(s.len(), |i: int| s[i].length)
}

/// The slots of a sequence of blocks.
pub open spec fn block_slots(s: Seq<BlockRef>) -> Seq<u64> {
    Seq::new(s.len(), |i: int| s[i].slot)
}

/// Among the common ancestors of the known blocks with the target, the
/// longest one (the last such one on ties).
pub fn max_lca(lcas: &Vec<Branch>) -> (r: Option<Branch>)
    ensures
        r is None <==> lcas@.len() == 0,
        r matches Some(b) ==> exists|i: int|
            is_last_max(branch_lengths(lcas@), i) && #[trigger] lcas@[i] == b,
{
    let mut keys: Vec<u64> = Vec::new();
    let mut i: usize = 0;
    while i < lcas.len()
        invariant
            0 <= i <= lcas@.len(),
            keys@ =~= branch_lengths(lcas@.take(i as int)),
        decreases lcas@.len() - i,
    {
        keys.push(lcas[i].length);
        i = i + 1;
        assert(keys@ =~= branch_lengths(lcas@.take(i as int)));
    }
    assert(lcas@.take(i as int) =~= lcas@);
    match last_max_index(&keys) {
        Some(k) => Some(lcas[k]),
        None => None,
    }
}

/// Among the given immutable blocks, the one with the highest slot (the
/// last such one on ties).
pub fn find_max_slot_immutable_block(blocks: &Vec<BlockRef>) -> (r: Option<BlockRef>)
    ensures
        r is None <==> blocks@.len() == 0,
        r matches Some(b) ==> exists|i: int|
            is_last_max(block_slots(blocks@), i) && #[trigger] blocks@[i] == b,
{
    let mut keys: Vec<u64> = Vec::new();
    let mut i: usize = 0;
    while i < blocks.len()
        invariant
            0 <= i <= blocks@.len(),
            keys@ =~= block_slots(blocks@.take(i as int)),
        decreases blocks@.len() - i,
    {
        keys.push(blocks[i].slot);
        i = i + 1;
        assert(keys@ =~= block_slots(blocks@.take(i as int)));
    }
    assert(blocks@.take(i as int) =~= blocks@);
    match last_max_index(&keys) {
        Some(k) => Some(blocks[k]),
        None => None,
    }
}

/// Chooses where a block stream towards `target_block` starts: `(start id,
/// start slot, target slot)`.
///
/// `target_branch` is the target as the engine knows it, `lcas` the common
/// ancestors (computed by the engine) of the target with each known block
/// present in the engine, `immutable_known` the known blocks stored as
/// immutable, and `target_immutable` the target if it is stored as
/// immutable.
///
/// If the target is in the engine, the longest common ancestor starts the
/// stream, or failing one the most recent immutable known block. If not, the
/// target must be stored as immutable, and the most recent immutable known
/// block starts the stream; otherwise `BlockNotFound` is returned.
pub fn select_start_block(
    target_block: HeaderId,
    target_branch: Option<Branch>,
    lcas: &Vec<Branch>,
    immutable_known: &Vec<BlockRef>,
    target_immutable: Option<BlockRef>,
) -> (r: Result<Option<(HeaderId, Slot, Slot)>, GetBlocksError>)
    ensures
        match target_branch {
            Some(t) => match r {
                Ok(Some((id, start_slot, target_slot))) => {
                    &&& target_slot == t.slot
                    &&& if lcas@.len() > 0 {
                        exists|i: int|
                            is_last_max(branch_lengths(lcas@), i) && #[trigger] lcas@[i].id == id
                                && lcas@[i].slot == start_slot
                    } else {
                        exists|i: int|
                            is_last_max(block_slots(immutable_known@), i) && #[trigger] immutable_known@[i].id
                                == id && immutable_known@[i].slot == start_slot
                    }
                },
                Ok(None) => lcas@.len() == 0 && immutable_known@.len() == 0,
                Err(_) => false,
            },
            None => match target_immutable {
                Some(t) => match r {
                    Ok(Some((id, start_slot, target_slot))) => {
                        &&& target_slot == t.slot
                        &&& exists|i: int|
                            is_last_max(block_slots(immutable_known@), i) && #[trigger] immutable_known@[i].id
                                == id && immutable_known@[i].slot == start_slot
                    },
                    Ok(None) => immutable_known@.len() == 0,
                    Err(_) => false,
                },
                None => r == Err::<Option<(HeaderId, Slot, Slot)>, GetBlocksError>(
                    GetBlocksError::BlockNotFound(target_block),
                ),
            },
        },
{
    match target_branch {
        Some(target) => {
            if let Some(lca) = max_lca(lcas) {
                return Ok(Some((lca.id, lca.slot, target.slot)));
            }
            match find_max_slot_immutable_block(immutable_known) {
                Some(b) => Ok(Some((b.id, b.slot, target.slot))),
                None => Ok(None),
            }
        },
        None => match target_immutable {
            Some(t) => match find_max_slot_immutable_block(immutable_known) {
                Some(b) => Ok(Some((b.id, b.slot, t.slot))),
                None => Ok(None),
            },
            None => Err(GetBlocksError::BlockNotFound(target_block)),
        },
    }
}

/// How the path of a block stream is obtained once its start is chosen.
#[derive(Clone, Debug)]
pub enum PathPlan {
    /// The path, computed in the engine.
    Computed(Vec<HeaderId>),
    /// The immutable blocks stored in this slot range are scanned first (see
    /// [`compute_path_from_storage_and_engine`]).
    ScanStorage { from_slot: Slot, to_slot: Slot },
}

/// Plans the path of a block stream from the chosen start `(start id,
/// start slot, target slot)`: no start fails with `StartBlockNotFound`; a
/// start known to the engine gets its path from the engine; any other start
/// is looked up in the storage, from its slot to the target's.
pub fn plan_path(
    branches: &Branches,
    start: Option<(HeaderId, Slot, Slot)>,
    target_block: HeaderId,
    limit: usize,
) -> (r: Result<PathPlan, GetBlocksError>)
    requires
        branches.wf(),
        limit > 0,
    ensures
        match start {
            None => r matches Err(e) && e == GetBlocksError::StartBlockNotFound,
            Some((id, start_slot, target_slot)) => if branches@.contains_key(id) {
                match r {
                    Ok(PathPlan::Computed(v)) => engine_path_outcome(
                        branches@,
                        id,
                        target_block,
                        limit as nat,
                        Ok(v@),
                    ),
                    Ok(PathPlan::ScanStorage { .. }) => false,
                    Err(e) => engine_path_outcome(branches@, id, target_block, limit as nat, Err(e)),
                }
            } else {
                r matches Ok(PathPlan::ScanStorage { from_slot, to_slot }) && from_slot
                    == start_slot && to_slot == target_slot
            },
        },
{
    match start {
        None => Err(GetBlocksError::StartBlockNotFound),
        Some((id, start_slot, target_slot)) => {
            if branches.contains(&id) {
                match compute_path_from_engine(branches, id, target_block, limit) {
                    Ok(v) => Ok(PathPlan::Computed(v)),
                    Err(e) => Err(e),
                }
            } else {
                Ok(PathPlan::ScanStorage { from_slot: start_slot, to_slot: target_slot })
            }
        },
    }
}

/// Completes a path scanned from the immutable blocks of the storage: while
/// it holds fewer than `limit` ids, the rest of the path is computed in the
/// engine from the LIB (the oldest block of the engine) to the target.
pub fn compute_path_from_storage_and_engine(
    storage_path: Vec<HeaderId>,
    branches: &Branches,
    lib: HeaderId,
    target_block: HeaderId,
    limit: usize,
) -> (r: Result<Vec<HeaderId>, GetBlocksError>)
    requires
        branches.wf(),
        limit > 0,
    ensures
        storage_path@.len() >= limit ==> r == Ok::<Vec<HeaderId>, GetBlocksError>(storage_path),
        storage_path@.len() < limit ==> match r {
            Ok(v) => exists|p: Seq<HeaderId>|
                #![trigger storage_path@ + p]
                engine_path_outcome(branches@, lib, target_block, (limit - storage_path@.len()) as nat, Ok(p))
                    && v@ == storage_path@ + p,
            Err(e) => engine_path_outcome(
                branches@,
                lib,
                target_block,
                (limit - storage_path@.len()) as nat,
                Err(e),
            ),
        },
        storage_path@.len() <= limit ==> (r matches Ok(v) ==> v@.len() <= limit),
{
    let mut path = storage_path;
    if path.len() < limit {
        let remaining = limit - path.len();
        let rest = compute_path_from_engine(branches, lib, target_block, remaining);
        match rest {
            Ok(rest) => {
                proof {
                    lemma_engine_path_parent_to_child(
                        branches@,
                        lib,
                        target_block,
                        remaining as nat,
                        rest@,
                    );
                }
                let ghost before = path@;
                let mut i: usize = 0;
                while i < rest.len()
                    invariant
                        0 <= i <= rest@.len(),
                        path@ == before + rest@.take(i as int),
                    decreases rest@.len() - i,
                {
                    path.push(rest[i]);
                    i = i + 1;
                    assert(path@ =~= before + rest@.take(i as int));
                }
                assert(rest@.take(i as int) =~= rest@);
                assert(path@ == before + rest@);
                return Ok(path);
            },
            Err(e) => return Err(e),
        }
    }
    Ok(path)
}

/// The blocks a requesting peer declares as known: its tip, its LIB and the
/// additional blocks, without repetition.
pub fn known_blocks(
    local_tip: HeaderId,
    latest_immutable_block: HeaderId,
    additional_blocks: &Vec<HeaderId>,
) -> (r: Vec<HeaderId>)
    ensures
        forall|i: int, j: int| 0 <= i < j < r@.len() ==> #[trigger] r@[i] != #[trigger] r@[j],
        forall|id: HeaderId|
            r@.contains(id) <==> (id == local_tip || id == latest_immutable_block
                || additional_blocks@.contains(id)),
{
    let mut r: Vec<HeaderId> = Vec::new();
    r.push(local_tip);
    if latest_immutable_block != local_tip {
        r.push(latest_immutable_block);
    }
    assert(r@[0] == local_tip);
    if r.len() == 2 {
        assert(r@[1] == latest_immutable_block);
    }
    assert(r@.contains(latest_immutable_block));
    assert forall|x: HeaderId| r@.contains(x) implies (x == local_tip || x == latest_immutable_block) by {
        let k = choose|k: int| 0 <= k < r@.len() && r@[k] == x;
    }
    assert(additional_blocks@.take(0) =~= Seq::<HeaderId>::empty());
    let mut i: usize = 0;
    while i < additional_blocks.len()
        invariant
            0 <= i <= additional_blocks@.len(),
            forall|a: int, b: int| 0 <= a < b < r@.len() ==> #[trigger] r@[a] != #[trigger] r@[b],
            forall|id: HeaderId|
                r@.contains(id) <==> (id == local_tip || id == latest_immutable_block
                    || additional_blocks@.take(i as int).contains(id)),
        decreases additional_blocks@.len() - i,
    {
        let id = additional_blocks[i];
        let ghost before = r@;
        let present = contains_id(&r, &id);
        if !present {
            r.push(id);
            assert(r@[r@.len() - 1] == id);
        }
        assert(r@.contains(id));
        let ghost prefix = additional_blocks@.take(i as int);
        assert(additional_blocks@.take(i + 1) =~= prefix.push(id));
        assert forall|x: HeaderId| prefix.push(id).contains(x) <==> (prefix.contains(x) || x == id) by {
            if prefix.push(id).contains(x) && x != id {
                let k = choose|k: int| 0 <= k < prefix.len() + 1 && prefix.push(id)[k] == x;
                assert(prefix[k] == x);
            }
            if prefix.contains(x) {
                let k = choose|k: int| 0 <= k < prefix.len() && prefix[k] == x;
                assert(prefix.push(id)[k] == x);
            }
            if x == id {
                assert(prefix.push(id)[prefix.len() as int] == x);
            }
        }
        assert forall|x: HeaderId| r@.contains(x) <==> (before.contains(x) || x == id) by {
            if r@.contains(x) && !before.contains(x) {
                let k = choose|k: int| 0 <= k < r@.len() && r@[k] == x;
                assert(k == before.len());
            }
            if before.contains(x) {
                let k = choose|k: int| 0 <= k < before.len() && before[k] == x;
                assert(r@[k] == x);
            }
        }
        assert forall|x: HeaderId| r@.contains(x) <==> (x == local_tip || x == latest_immutable_block
            || prefix.push(id).contains(x)) by {
            assert(before.contains(x) <==> (x == local_tip || x == latest_immutable_block
                || prefix.contains(x)));
        }
        i = i + 1;
    }
    assert(additional_blocks@.take(i as int) =~= additional_blocks@);
    r
}

/// Whether `id` occurs in `v`.
pub fn contains_id(v: &Vec<HeaderId>, id: &HeaderId) -> (r: bool)
    ensures
        r == v@.contains(*id),
{
    let mut i: usize = 0;
    while i < v.len()
        invariant
            0 <= i <= v@.len(),
            forall|j: int| 0 <= j < i ==> #[trigger] v@[j] != *id,
        decreases v@.len() - i,
    {
        if v[i] == *id {
            assert(v@[i as int] == *id);
            return true;
        }
        i = i + 1;
    }
    false
}


/// `s` is what a block stream carries when the blocks of its path were
/// loaded as `loads`, in path order: every block loaded before the first
/// load that failed, and none after it.
pub open spec fn is_stream_of<T>(loads: Seq<Option<T>>, s: Seq<T>) -> bool {
    &&& s.len() <= loads.len()
    &&& forall|i: int| 0 <= i < s.len() ==> loads[i] == Some(#[trigger] s[i])
    &&& s.len() < loads.len() ==> loads[s.len() as int] is None
}

/// The blocks of a stream, from the loads of its path in path order (`None`
/// where a block could not be loaded): the stream ends at the first block
/// that fails to load.
pub fn stream_blocks<T>(loads: Vec<Option<T>>) -> (s: Vec<T>)
    ensures
        is_stream_of(loads@, s@),
{
    let ghost all = loads@;
    let mut rest = loads;
    assert(rest@ =~= all.subrange(0, all.len() as int));
    let mut s: Vec<T> = Vec::new();
    while rest.len() > 0
        invariant
            all == loads@,
            s@.len() + rest@.len() == all.len(),
            rest@ == all.subrange(s@.len() as int, all.len() as int),
            forall|i: int| 0 <= i < s@.len() ==> all[i] == Some(#[trigger] s@[i]),
        decreases rest@.len(),
    {
        let ghost k = s@.len() as int;
        let next = rest.remove(0);
        assert(next == all[k]);
        match next {
            Some(b) => {
                s.push(b);
                assert(rest@ =~= all.subrange(s@.len() as int, all.len() as int));
            },
            None => {
                assert(all[s@.len() as int] is None);
                return s;
            },
        }
    }
    s
}

/// A stream served along a path computed in the engine carries at most
/// `limit` blocks; its blocks are those of the path's first ids, in order,
/// each a child of the one before it; and it stops only where the path ends
/// or a block failed to load.
pub proof fn lemma_engine_stream<T>(
    m: Map<HeaderId, Branch>,
    start: HeaderId,
    target: HeaderId,
    limit: nat,
    path: Seq<HeaderId>,
    loads: Seq<Option<T>>,
    s: Seq<T>,
)
    requires
        limit > 0,
        engine_path_outcome(m, start, target, limit, Ok(path)),
        loads.len() == path.len(),
        is_stream_of(loads, s),
    ensures
        s.len() <= limit,
        s.len() > 0 ==> path[0] == start,
        forall|i: int| 0 <= i < s.len() ==> loads[i] == Some(#[trigger] s[i]),
        forall|j: int|
            0 <= j < s.len() - 1 ==> m.contains_key(#[trigger] path[j + 1]) && m[path[j + 1]].parent
                == path[j],
        s.len() == path.len() || loads[s.len() as int] is None,
{
    lemma_engine_path_parent_to_child(m, start, target, limit, path);
}

} // verus!
