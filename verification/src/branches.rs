use vstd::prelude::*;

use crate::header::{HeaderId, Slot};

verus! {

/// One block as the consensus engine tracks it: its id, its parent, its slot
/// and its length (height) in the chain.
///
/// A genesis-like block is its own parent.
#[derive(Clone, Copy, Debug, PartialEq, Eq)]
pub struct Branch {
    pub id: HeaderId,
    pub parent: HeaderId,
    pub slot: Slot,
    pub length: u64,
}

/// Reasons for which inserting a branch into [`Branches`] is refused.
#[derive(Clone, Copy, Debug, PartialEq, Eq, Structural)]
pub enum BranchesError {
    /// A branch with the same id is already present.
    DuplicateBlock,
    /// The branch is not strictly longer than its parent, or not strictly
    /// shorter than one of its children already present.
    InconsistentLength,
}

/// The table of branches known to the consensus engine, keyed by block id.
pub struct Branches {
    entries: Vec<Branch>,
}

/// Whether no two entries carry the same id.
pub open spec fn ids_distinct(s: Seq<Branch>) -> bool {
    forall|i: int, j: int| 0 <= i < j < s.len() ==> #[trigger] s[i].id != #[trigger] s[j].id
}

/// Whether `id` is the id of some entry.
pub open spec fn has_id(s: Seq<Branch>, id: HeaderId) -> bool {
    exists|i: int| 0 <= i < s.len() && #[trigger] s[i].id == id
}

/// The map from ids to branches described by a sequence of entries.
pub open spec fn branch_map(s: Seq<Branch>) -> Map<HeaderId, Branch> {
    Map::new(
        |id: HeaderId| has_id(s, id),
        |id: HeaderId| s[choose|i: int| 0 <= i < s.len() && #[trigger] s[i].id == id],
    )
}

/// Every non-genesis branch whose parent is known is strictly longer than
/// its parent. This is what makes every walk towards the parents finite.
pub open spec fn lengths_increase(m: Map<HeaderId, Branch>) -> bool {
    forall|id: HeaderId|
        #[trigger] m.contains_key(id) ==> {
            &&& m[id].id == id
            &&& (m[id].parent != id && m.contains_key(m[id].parent)) ==> m[m[id].parent].length
                < m[id].length
        }
}

/// The block reached after `k` steps from `id` towards the parents.
pub open spec fn ancestor(m: Map<HeaderId, Branch>, id: HeaderId, k: nat) -> HeaderId
    decreases k,
{
    if k == 0 {
        id
    } else {
        m[ancestor(m, id, (k - 1) as nat)].parent
    }
}

/// Whether a walk can leave `x` towards a parent distinct from `x`.
pub open spec fn can_step(m: Map<HeaderId, Branch>, x: HeaderId) -> bool {
    m.contains_key(x) && m[x].parent != x
}

/// The first `n` blocks of the walk from `target` are known, are not genesis
/// blocks and are all distinct from `start`.
pub open spec fn walk_clear(
    m: Map<HeaderId, Branch>,
    start: HeaderId,
    target: HeaderId,
    n: nat,
) -> bool {
    forall|i: nat|
        i < n ==> #[trigger] ancestor(m, target, i) != start && can_step(m, ancestor(m, target, i))
}

/// The path `start, ..., target` of the walk that reaches `start` after `n`
/// steps, cut to its first `limit` blocks.
pub open spec fn path_prefix(
    m: Map<HeaderId, Branch>,
    target: HeaderId,
    n: nat,
    limit: nat,
) -> Seq<HeaderId> {
    Seq::new(
        if n + 1 <= limit {
            n + 1
        } else {
            limit
        },
        |j: int| ancestor(m, target, (n - j) as nat),
    )
}

impl View for Branches {
    type V = Map<HeaderId, Branch>;

    closed spec fn view(&self) -> Map<HeaderId, Branch> {
        branch_map(self.entries@)
    }
}

impl Branches {
    /// The table is keyed consistently and lengths grow from parent to child.
    pub closed spec fn wf(&self) -> bool {
        &&& ids_distinct(self.entries@)
        &&& lengths_increase(self@)
    }

    proof fn lemma_map_entry(s: Seq<Branch>, i: int)
        requires
            ids_distinct(s),
            0 <= i < s.len(),
        ensures
            branch_map(s).contains_key(s[i].id),
            branch_map(s)[s[i].id] == s[i],
    {
        assert(has_id(s, s[i].id));
        let k = choose|k: int| 0 <= k < s.len() && #[trigger] s[k].id == s[i].id;
        if k != i {
            if k < i {
                assert(s[k].id != s[i].id);
            } else {
                assert(s[i].id != s[k].id);
            }
        }
    }

    /// In a well-formed table every entry is keyed by its own id, and a
    /// known parent distinct from its child is strictly shorter than it.
    pub proof fn lemma_entry_facts(&self, id: HeaderId)
        requires
            self.wf(),
            self@.contains_key(id),
        ensures
            self@[id].id == id,
            (self@[id].parent != id && self@.contains_key(self@[id].parent)) ==> self@[self@[id].parent].length
                < self@[id].length,
    {
    }

    /// In a well-formed table, lengths grow from parent to child.
    pub proof fn lemma_lengths_increase(&self)
        requires
            self.wf(),
        ensures
            lengths_increase(self@),
    {
    }

    /// An empty table.
    pub fn new() -> (b: Branches)
        ensures
            b.wf(),
            b@ == Map::<HeaderId, Branch>::empty(),
    {
        let b = Branches { entries: Vec::new() };
        assert(b@ =~= Map::<HeaderId, Branch>::empty());
        b
    }

    /// Looks up the branch of a block.
    pub fn get(&self, id: &HeaderId) -> (r: Option<Branch>)
        requires
            self.wf(),
        ensures
            r == (if self@.contains_key(*id) {
                Some(self@[*id])
            } else {
                None::<Branch>
            }),
    {
        let mut i: usize = 0;
        while i < self.entries.len()
            invariant
                0 <= i <= self.entries@.len(),
                self.wf(),
                forall|j: int| 0 <= j < i ==> #[trigger] self.entries@[j].id != *id,
            decreases self.entries@.len() - i,
        {
            if self.entries[i].id == *id {
                proof {
                    Self::lemma_map_entry(self.entries@, i as int);
                }
                return Some(self.entries[i]);
            }
            i = i + 1;
        }
        assert(!has_id(self.entries@, *id));
        None
    }

    /// Whether the block is in the table.
    pub fn contains(&self, id: &HeaderId) -> (r: bool)
        requires
            self.wf(),
        ensures
            r == self@.contains_key(*id),
    {
        self.get(id).is_some()
    }

    /// Adds a branch. It is refused if its id is already present, if it is
    /// not strictly longer than its (known, distinct) parent, or if it is not
    /// strictly shorter than a child of it that is already present.
    pub fn insert(&mut self, branch: Branch) -> (r: Result<(), BranchesError>)
        requires
            old(self).wf(),
        ensures
            final(self).wf(),
            r is Ok ==> final(self)@ == old(self)@.insert(branch.id, branch),
            r is Err ==> final(self)@ == old(self)@,
            r == Err::<(), BranchesError>(BranchesError::DuplicateBlock) <==> old(self)@.contains_key(
                branch.id,
            ),
            r == Err::<(), BranchesError>(BranchesError::InconsistentLength) <==> (!old(
                self,
            )@.contains_key(branch.id) && !Self::fits(old(self)@, branch)),
            r is Ok <==> (!old(self)@.contains_key(branch.id) && Self::fits(old(self)@, branch)),
    {
        if self.contains(&branch.id) {
            return Err(BranchesError::DuplicateBlock);
        }
        if branch.parent != branch.id {
            if let Some(p) = self.get(&branch.parent) {
                if p.length >= branch.length {
                    return Err(BranchesError::InconsistentLength);
                }
            }
        }
        let mut i: usize = 0;
        while i < self.entries.len()
            invariant
                0 <= i <= self.entries@.len(),
                self.wf(),
                !self@.contains_key(branch.id),
                branch.parent != branch.id && self@.contains_key(branch.parent) ==> self@[branch.parent].length
                    < branch.length,
                forall|j: int|
                    0 <= j < i ==> (#[trigger] self.entries@[j]).parent == branch.id
                        ==> branch.length < self.entries@[j].length,
            decreases self.entries@.len() - i,
        {
            let e = self.entries[i];
            if e.parent == branch.id && e.length <= branch.length {
                proof {
                    Self::lemma_map_entry(self.entries@, i as int);
                    assert(self@.contains_key(e.id));
                }
                return Err(BranchesError::InconsistentLength);
            }
            i = i + 1;
        }
        proof {
            assert forall|id: HeaderId| #[trigger]
                self@.contains_key(id) && self@[id].parent == branch.id implies branch.length
                < self@[id].length by {
                let k = choose|k: int|
                    0 <= k < self.entries@.len() && #[trigger] self.entries@[k].id == id;
                Self::lemma_map_entry(self.entries@, k);
            }
        }
        let ghost old_entries = self.entries@;
        let ghost old_map = self@;
        self.entries.push(branch);
        proof {
            let s = self.entries@;
            assert(s == old_entries.push(branch));
            assert forall|i: int, j: int| 0 <= i < j < s.len() implies #[trigger] s[i].id
                != #[trigger] s[j].id by {
                if j == s.len() - 1 {
                    if s[i].id == branch.id {
                        assert(has_id(old_entries, branch.id));
                    }
                }
            }
            assert forall|id: HeaderId| #[trigger]
                old_map.insert(branch.id, branch).contains_key(id) implies self@.contains_key(id)
                && self@[id] == old_map.insert(branch.id, branch)[id] by {
                if id == branch.id {
                    Self::lemma_map_entry(s, s.len() - 1);
                } else {
                    let k = choose|k: int|
                        0 <= k < old_entries.len() && #[trigger] old_entries[k].id == id;
                    Self::lemma_map_entry(old_entries, k);
                    Self::lemma_map_entry(s, k);
                }
            }
            assert forall|id: HeaderId| #[trigger] self@.contains_key(id) implies old_map.insert(
                branch.id,
                branch,
            ).contains_key(id) by {
                let k = choose|k: int| 0 <= k < s.len() && #[trigger] s[k].id == id;
                if k < old_entries.len() {
                    assert(old_entries[k].id == id);
                    assert(has_id(old_entries, id));
                }
            }
            assert(self@ =~= old_map.insert(branch.id, branch));
        }
        Ok(())
    }

    /// Whether a new branch agrees in length with its parent and with its
    /// children already in the table.
    pub open spec fn fits(m: Map<HeaderId, Branch>, branch: Branch) -> bool {
        &&& (branch.parent != branch.id && m.contains_key(branch.parent)) ==> m[branch.parent].length
            < branch.length
        &&& forall|id: HeaderId| #[trigger]
            m.contains_key(id) && m[id].parent == branch.id ==> branch.length < m[id].length
    }
}

} // verus!
