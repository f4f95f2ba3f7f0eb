use vstd::prelude::*;

use crate::block_provider::contains_id;
use crate::header::TxHash;

verus! {

/// Errors when gathering the transactions of a block.
#[derive(Clone, Copy, Debug, PartialEq, Eq)]
pub enum TransactionError {
    /// The transaction with this hash is neither in the mempool nor in the
    /// storage (or it was requested twice).
    NotFound(TxHash),
}

/// `j` is the last position of `h` in `s`.
pub open spec fn is_last_index(s: Seq<TxHash>, h: TxHash, j: int) -> bool {
    &&& 0 <= j < s.len()
    &&& s[j] == h
    &&& forall|l: int| j < l < s.len() ==> #[trigger] s[l] != h
}

/// The last position of `h` in `s` (meaningful when `s` contains `h`).
pub open spec fn last_index_of(s: Seq<TxHash>, h: TxHash) -> int {
    choose|j: int| is_last_index(s, h, j)
}

/// There is only one last position.
pub proof fn lemma_last_index_unique(s: Seq<TxHash>, h: TxHash, j: int)
    requires
        is_last_index(s, h, j),
    ensures
        last_index_of(s, h) == j,
{
    let k = last_index_of(s, h);
    assert(is_last_index(s, h, k));
    if k < j {
        assert(s[j] != h);
    } else if j < k {
        assert(s[k] != h);
    }
}

/// The `i`-th requested hash can be served: some found transaction has it,
/// and no earlier request took it.
pub open spec fn can_serve(requested: Seq<TxHash>, found: Seq<TxHash>, i: int) -> bool {
    &&& found.contains(requested[i])
    &&& !requested.take(i).contains(requested[i])
}

/// The hashes among `requested` that are not in `found`, in order.
pub open spec fn missing_hashes_spec(requested: Seq<TxHash>, found: Seq<TxHash>) -> Seq<TxHash>
    decreases requested.len(),
{
    if requested.len() == 0 {
        Seq::empty()
    } else {
        let rest = missing_hashes_spec(requested.drop_last(), found);
        if found.contains(requested.last()) {
            rest
        } else {
            rest.push(requested.last())
        }
    }
}

/// The requested hashes that the mempool did not return, to be looked up in
/// the storage, in their requested order.
pub fn missing_hashes(requested: &Vec<TxHash>, found: &Vec<TxHash>) -> (r: Vec<TxHash>)
    ensures
        r@ == missing_hashes_spec(requested@, found@),
{
    let mut r: Vec<TxHash> = Vec::new();
    let mut i: usize = 0;
    while i < requested.len()
        invariant
            0 <= i <= requested@.len(),
            r@ == missing_hashes_spec(requested@.take(i as int), found@),
        decreases requested@.len() - i,
    {
        let h = requested[i];
        if !contains_id(found, &h) {
            r.push(h);
        }
        assert(requested@.take(i + 1).drop_last() =~= requested@.take(i as int));
        i = i + 1;
    }
    assert(requested@.take(i as int) =~= requested@);
    r
}

/// Nothing is left to look up in the storage exactly when the mempool
/// returned every requested hash.
pub proof fn lemma_nothing_missing(requested: Seq<TxHash>, found: Seq<TxHash>)
    ensures
        (missing_hashes_spec(requested, found).len() == 0) == (forall|i: int|
            0 <= i < requested.len() ==> found.contains(#[trigger] requested[i])),
    decreases requested.len(),
{
    if requested.len() > 0 {
        let prefix = requested.drop_last();
        lemma_nothing_missing(prefix, found);
        assert forall|i: int| 0 <= i < prefix.len() implies prefix[i] == #[trigger] requested[i] by {}
        if !found.contains(requested.last()) {
            assert(!found.contains(requested[requested.len() - 1]));
        } else if missing_hashes_spec(prefix, found).len() != 0 {
            let j = choose|j: int| 0 <= j < prefix.len() && !found.contains(#[trigger] prefix[j]);
            assert(requested[j] == prefix[j]);
        } else {
            assert forall|i: int| 0 <= i < requested.len() implies found.contains(
                #[trigger] requested[i],
            ) by {
                if i < prefix.len() {
                    assert(prefix[i] == requested[i]);
                }
            }
        }
    }
}

/// The hashes to look up in the storage after the mempool returned the
/// transactions whose hashes are `found`: the requested ones it did not
/// return, in their requested order; `None`, so that the storage is not
/// queried at all, when the mempool returned every requested hash.
pub fn storage_query(requested: &Vec<TxHash>, found: &Vec<TxHash>) -> (r: Option<Vec<TxHash>>)
    ensures
        r is None <==> missing_hashes_spec(requested@, found@).len() == 0,
        r matches Some(v) ==> v@ == missing_hashes_spec(requested@, found@),
{
    let missing = missing_hashes(requested, found);
    if missing.len() == 0 {
        None
    } else {
        Some(missing)
    }
}

/// The last position of `h` in `s`, if any.
fn last_position(s: &Vec<TxHash>, h: &TxHash) -> (r: Option<usize>)
    ensures
        r is None <==> !s@.contains(*h),
        r matches Some(j) ==> is_last_index(s@, *h, j as int),
{
    let mut i: usize = s.len();
    while i > 0
        invariant
            0 <= i <= s@.len(),
            forall|l: int| i <= l < s@.len() ==> #[trigger] s@[l] != *h,
        decreases i,
    {
        i = i - 1;
        if s[i] == *h {
            return Some(i);
        }
    }
    proof {
        if s@.contains(*h) {
            let k = choose|k: int| 0 <= k < s@.len() && s@[k] == *h;
            assert(s@[k] != *h);
        }
    }
    None
}

/// Gathers the transactions of a block in the order of `requested`, out of
/// the transactions found in the mempool and then in the storage
/// (`found_txs`, whose hashes are `found_hashes`). Where a hash was found
/// twice, the later one is used. Fails on the first requested hash that was
/// not found, or that was already requested before.
pub fn get_transactions<T>(
    requested: &Vec<TxHash>,
    found_hashes: &Vec<TxHash>,
    found_txs: Vec<T>,
) -> (r: Result<Vec<T>, TransactionError>)
    requires
        found_hashes@.len() == found_txs@.len(),
    ensures
        r is Ok <==> (forall|i: int|
            0 <= i < requested@.len() ==> #[trigger] can_serve(requested@, found_hashes@, i)),
        r matches Ok(v) ==> {
            &&& v@.len() == requested@.len()
            &&& forall|i: int|
                0 <= i < requested@.len() ==> #[trigger] v@[i] == found_txs@[last_index_of(
                    found_hashes@,
                    requested@[i],
                )]
        },
        r matches Err(TransactionError::NotFound(h)) ==> exists|i: int|
            0 <= i < requested@.len() && h == requested@[i] && !can_serve(
                requested@,
                found_hashes@,
                i,
            ) && forall|k: int| 0 <= k < i ==> #[trigger] can_serve(requested@, found_hashes@, k),
{
    let ghost orig = found_txs@;
    let ghost fh = found_hashes@;
    let ghost req = requested@;
    let mut txs = found_txs;
    let mut slots: Vec<Option<T>> = Vec::new();
    while txs.len() > 0
        invariant
            txs@ == orig.take(txs@.len() as int),
            txs@.len() <= orig.len(),
            slots@ =~= orig.skip(txs@.len() as int).map_values(|t: T| Some(t)),
        decreases txs@.len(),
    {
        let ghost n = txs@.len();
        let t = txs.pop().unwrap();
        slots.insert(0, Some(t));
        assert(txs@ =~= orig.take(txs@.len() as int));
        assert(slots@ =~= orig.skip(txs@.len() as int).map_values(|t: T| Some(t)));
    }
    assert(slots@.len() == fh.len());
    let mut out: Vec<T> = Vec::new();
    let ghost mut idx: Seq<int> = Seq::empty();
    let mut i: usize = 0;
    while i < requested.len()
        invariant
            0 <= i <= req.len(),
            req == requested@,
            fh == found_hashes@,
            slots@.len() == fh.len(),
            orig.len() == fh.len(),
            out@.len() == i,
            forall|k: int| 0 <= k < i ==> #[trigger] can_serve(req, fh, k),
            idx.len() == i,
            forall|k: int|
                0 <= k < i ==> is_last_index(fh, req[k], #[trigger] idx[k]) && out@[k] == orig[idx[k]],
            forall|j: int|
                0 <= j < fh.len() ==> #[trigger] slots@[j] == (if req.take(i as int).contains(
                    fh[j],
                ) && is_last_index(fh, fh[j], j) {
                    None
                } else {
                    Some(orig[j])
                }),
        decreases req.len() - i,
    {
        let h = requested[i];
        let ghost prefix = req.take(i as int);
        assert(req.take(i + 1) =~= prefix.push(h));
        match last_position(found_hashes, &h) {
            None => {
                assert(!can_serve(req, fh, i as int));
                return Err(TransactionError::NotFound(h));
            },
            Some(j) => {
                let taken = slots.remove(j);
                slots.insert(j, None);
                match taken {
                    None => {
                        assert(prefix.contains(h));
                        assert(!can_serve(req, fh, i as int));
                        return Err(TransactionError::NotFound(h));
                    },
                    Some(t) => {
                        proof {
                            assert(!prefix.contains(h));
                            assert(can_serve(req, fh, i as int)) by {
                                assert(fh[j as int] == h);
                            }
                        }
                        let ghost old_out = out@;
                        out.push(t);
                        proof {
                            assert forall|jj: int| 0 <= jj < fh.len() implies #[trigger] slots@[jj]
                                == (if req.take(i + 1).contains(fh[jj]) && is_last_index(
                                fh,
                                fh[jj],
                                jj,
                            ) {
                                None
                            } else {
                                Some(orig[jj])
                            }) by {
                                assert(req.take(i + 1).contains(fh[jj]) <==> (prefix.contains(
                                    fh[jj],
                                ) || fh[jj] == h)) by {
                                    if req.take(i + 1).contains(fh[jj]) && fh[jj] != h {
                                        let k = choose|k: int|
                                            0 <= k < i + 1 && #[trigger] req.take(i + 1)[k] == fh[jj];
                                        assert(prefix[k] == fh[jj]);
                                    }
                                    if prefix.contains(fh[jj]) {
                                        let k = choose|k: int| 0 <= k < i && prefix[k] == fh[jj];
                                        assert(req.take(i + 1)[k] == fh[jj]);
                                    }
                                    if fh[jj] == h {
                                        assert(req.take(i + 1)[i as int] == h);
                                    }
                                }
                                if jj != j as int && fh[jj] == h && is_last_index(fh, fh[jj], jj) {
                                    if jj < j {
                                        assert(fh[j as int] != h);
                                    } else {
                                        assert(fh[jj] != h);
                                    }
                                }
                            }
                        }
                        proof {
                            idx = idx.push(j as int);
                        }
                        i = i + 1;
                    },
                }
            },
        }
    }
    assert forall|k: int| 0 <= k < requested@.len() implies #[trigger] out@[k] == found_txs@[last_index_of(
        found_hashes@,
        requested@[k],
    )] by {
        lemma_last_index_unique(fh, req[k], idx[k]);
    }
    Ok(out)
}

/// The transaction hashes of the given blocks, block after block, in the
/// order of each block's transactions; a block that could not be loaded
/// (`None`) contributes nothing.
pub open spec fn block_hashes_spec(blocks: Seq<Option<Vec<TxHash>>>) -> Seq<TxHash>
    decreases blocks.len(),
{
    if blocks.len() == 0 {
        Seq::empty()
    } else {
        block_hashes_spec(blocks.drop_last()) + match blocks.last() {
            Some(v) => v@,
            None => Seq::empty(),
        }
    }
}

/// The transactions to remove once blocks became immutable: those of the
/// blocks that could be loaded. `None` when there are none, in which case
/// nothing is removed.
pub fn cleanup_hashes(blocks: &Vec<Option<Vec<TxHash>>>) -> (r: Option<Vec<TxHash>>)
    ensures
        r matches Some(v) ==> v@ == block_hashes_spec(blocks@),
        r is None <==> block_hashes_spec(blocks@).len() == 0,
{
    let mut hashes: Vec<TxHash> = Vec::new();
    let mut i: usize = 0;
    while i < blocks.len()
        invariant
            0 <= i <= blocks@.len(),
            hashes@ == block_hashes_spec(blocks@.take(i as int)),
        decreases blocks@.len() - i,
    {
        let ghost before = hashes@;
        if let Some(v) = &blocks[i] {
            let mut j: usize = 0;
            while j < v.len()
                invariant
                    0 <= j <= v@.len(),
                    hashes@ == before + v@.take(j as int),
                decreases v@.len() - j,
            {
                hashes.push(v[j]);
                j = j + 1;
                assert(hashes@ =~= before + v@.take(j as int));
            }
            assert(v@.take(j as int) =~= v@);
        }
        assert(blocks@.take(i + 1).drop_last() =~= blocks@.take(i as int));
        assert(hashes@ =~= block_hashes_spec(blocks@.take(i + 1)));
        i = i + 1;
    }
    assert(blocks@.take(i as int) =~= blocks@);
    if hashes.len() == 0 {
        None
    } else {
        Some(hashes)
    }
}

/// When no hash is requested twice, a requested hash can be served
/// exactly when it was found; so the transactions of a block are gathered
/// (see [`get_transactions`]) exactly when every requested hash was found in
/// the mempool or in the storage.
pub proof fn lemma_distinct_requests_served(requested: Seq<TxHash>, found: Seq<TxHash>)
    requires
        requested.no_duplicates(),
    ensures
        forall|i: int|
            0 <= i < requested.len() ==> (#[trigger] can_serve(requested, found, i) <==> found.contains(
                requested[i],
            )),
{
    assert forall|i: int| 0 <= i < requested.len() implies !requested.take(i).contains(
        #[trigger] requested[i],
    ) by {
        if requested.take(i).contains(requested[i]) {
            let k = choose|k: int| 0 <= k < i && requested.take(i)[k] == requested[i];
            assert(requested[k] == requested[i]);
        }
    }
}

} // verus!
