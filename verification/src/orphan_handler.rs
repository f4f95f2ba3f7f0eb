use vstd::prelude::*;

use crate::block_provider::MAX_NUMBER_OF_BLOCKS;
use crate::header::HeaderId;
use crate::id_set::IdSet;

verus! {

/// The state of the orphan whose ancestors are being downloaded.
#[derive(Clone, Copy, Debug, PartialEq, Eq)]
pub struct OrphanHandlingState {
    /// The orphan block whose ancestors are requested.
    pub orphan_id: HeaderId,
    /// The last block received for it, from which a next request continues.
    pub last_block: Option<HeaderId>,
    /// Whether a block stream for it is open (none between two requests).
    pub streaming: bool,
    /// The number of requests made for it after the first.
    pub requests_count: usize,
}

/// A request for the ancestors of an orphan: the orphan, the block (if any)
/// from which the peers should continue, and the iteration it counts as.
#[derive(Clone, Copy, Debug, PartialEq, Eq)]
pub struct OrphanRequest {
    pub orphan_id: HeaderId,
    pub known_block: Option<HeaderId>,
    pub iteration: usize,
}

/// What the open block stream of the current orphan produced.
#[derive(Clone, Copy, Debug, PartialEq, Eq)]
pub enum StreamEvent {
    /// A block with this id arrived.
    Block(HeaderId),
    /// The stream failed.
    Failed,
    /// The stream ended.
    Ended,
}

/// Tracks orphan blocks (blocks whose parent is unknown) and decides which
/// ancestor downloads to make for them.
pub struct OrphanHandler {
    pending_orphans: IdSet,
    current_orphan_state: Option<OrphanHandlingState>,
    max_orphan_cache_size: usize,
    max_number_of_iterations: usize,
}

/// The number of requests of at most `per_request` blocks needed to fetch
/// `blocks` blocks.
pub open spec fn div_ceil_spec(blocks: nat, per_request: nat) -> nat {
    ((blocks + per_request - 1) / (per_request as int)) as nat
}

proof fn lemma_div_ceil(b: int)
    requires
        b >= 0,
    ensures
        (b + 999) / 1000 == b / 1000 + if b % 1000 != 0 {
            1int
        } else {
            0int
        },
{
    let q = b / 1000;
    let r = b % 1000;
    assert(b == 1000 * q + r && 0 <= r < 1000) by (nonlinear_arith)
        requires
            q == b / 1000,
            r == b % 1000,
    ;
    assert((b + 999) / 1000 == q + if r != 0 {
        1int
    } else {
        0int
    }) by (nonlinear_arith)
        requires
            b == 1000 * q + r,
            0 <= r < 1000,
    ;
}

impl OrphanHandler {
    /// The orphans waiting to be handled.
    pub closed spec fn pending(&self) -> Set<HeaderId> {
        self.pending_orphans@
    }

    /// The orphan being handled, if any.
    pub closed spec fn current(&self) -> Option<OrphanHandlingState> {
        self.current_orphan_state
    }

    /// The maximal number of pending orphans.
    pub closed spec fn max_cache(&self) -> nat {
        self.max_orphan_cache_size as nat
    }

    /// The maximal number of follow-up requests for one orphan.
    pub closed spec fn max_iterations(&self) -> nat {
        self.max_number_of_iterations as nat
    }

    /// The handler's invariant: the pending orphans fit in the cache, and no
    /// orphan counts more follow-up requests than allowed.
    pub closed spec fn wf(&self) -> bool {
        &&& self.pending_orphans.wf()
        &&& self.pending_orphans@.finite()
        &&& self.pending_orphans@.len() <= self.max_orphan_cache_size
        &&& self.max_orphan_cache_size > 0
        &&& self.max_number_of_iterations > 0
        &&& (self.current_orphan_state matches Some(s) ==> s.requests_count
            <= self.max_number_of_iterations)
    }

    /// The handler's invariant, as its callers can rely on it.
    pub proof fn lemma_wf(&self)
        requires
            self.wf(),
        ensures
            self.pending().finite(),
            self.pending().len() <= self.max_cache(),
            self.max_cache() > 0,
            self.max_iterations() > 0,
            self.current() matches Some(s) ==> s.requests_count <= self.max_iterations(),
    {
    }

    /// A handler with no orphan. At most `security_param` blocks are ever
    /// fetched for an orphan, so the number of follow-up requests is
    /// `security_param` divided by [`MAX_NUMBER_OF_BLOCKS`], rounded up.
    pub fn new(max_orphan_cache_size: usize, security_param: u32) -> (h: OrphanHandler)
        requires
            max_orphan_cache_size > 0,
            security_param > 0,
        ensures
            h.wf(),
            h.pending() == Set::<HeaderId>::empty(),
            h.current() is None,
            h.max_cache() == max_orphan_cache_size,
            h.max_iterations() == div_ceil_spec(security_param as nat, MAX_NUMBER_OF_BLOCKS as nat),
    {
        let blocks_to_fetch = security_param as usize;
        let iterations = blocks_to_fetch / MAX_NUMBER_OF_BLOCKS + if blocks_to_fetch
            % MAX_NUMBER_OF_BLOCKS != 0 {
            1
        } else {
            0
        };
        proof {
            lemma_div_ceil(blocks_to_fetch as int);
        }
        let pending_orphans = IdSet::new();
        OrphanHandler {
            pending_orphans,
            current_orphan_state: None,
            max_orphan_cache_size,
            max_number_of_iterations: iterations,
        }
    }

    /// Adds an orphan to the pending ones, unless the cache is full or the
    /// orphan is the one being handled.
    pub fn add_orphan(&mut self, orphan_id: HeaderId)
        requires
            old(self).wf(),
        ensures
            final(self).wf(),
            final(self).current() == old(self).current(),
            final(self).max_cache() == old(self).max_cache(),
            final(self).max_iterations() == old(self).max_iterations(),
            final(self).pending() == (if old(self).pending().len() >= old(self).max_cache() || (old(
                self,
            ).current() matches Some(s) && s.orphan_id == orphan_id) {
                old(self).pending()
            } else {
                old(self).pending().insert(orphan_id)
            }),
    {
        if self.pending_orphans.len() >= self.max_orphan_cache_size {
            return;
        }
        if let Some(state) = &self.current_orphan_state {
            if state.orphan_id == orphan_id {
                return;
            }
        }
        self.pending_orphans.insert(orphan_id);
        proof {
            if !old(self).pending_orphans@.contains(orphan_id) {
                assert(self.pending_orphans@.len() == old(self).pending_orphans@.len() + 1);
            } else {
                assert(self.pending_orphans@ =~= old(self).pending_orphans@);
            }
        }
    }

    /// Forgets a block as an orphan: it leaves the pending ones, and if it is
    /// the one being handled, its download is cancelled.
    pub fn remove_orphan_if_present(&mut self, block_id: &HeaderId)
        requires
            old(self).wf(),
        ensures
            final(self).wf(),
            final(self).pending() == old(self).pending().remove(*block_id),
            final(self).current() == (if old(self).current() matches Some(s) && s.orphan_id
                == *block_id {
                None
            } else {
                old(self).current()
            }),
            final(self).max_cache() == old(self).max_cache(),
            final(self).max_iterations() == old(self).max_iterations(),
    {
        self.pending_orphans.remove(block_id);
        proof {
            vstd::set_lib::lemma_len_subset(self.pending_orphans@, old(self).pending_orphans@);
        }
        let cancel = match &self.current_orphan_state {
            Some(state) => state.orphan_id == *block_id,
            None => false,
        };
        if cancel {
            self.cancel_active_stream();
        }
    }

    /// Drops the orphan being handled, if any.
    pub fn cancel_active_stream(&mut self)
        requires
            old(self).wf(),
        ensures
            final(self).wf(),
            final(self).pending() == old(self).pending(),
            final(self).current() is None,
            final(self).max_cache() == old(self).max_cache(),
            final(self).max_iterations() == old(self).max_iterations(),
    {
        self.current_orphan_state = None;
    }

    /// Whether there is orphan work left.
    pub fn should_call(&self) -> (b: bool)
        requires
            self.wf(),
        ensures
            b == (self.pending() != Set::<HeaderId>::empty() || self.current() is Some),
    {
        !self.pending_orphans.is_empty() || self.current_orphan_state.is_some()
    }

    /// Whether a block stream of the current orphan is open.
    pub fn is_streaming(&self) -> (b: bool)
        ensures
            b == (self.current() matches Some(s) && s.streaming),
    {
        match &self.current_orphan_state {
            Some(s) => s.streaming,
            None => false,
        }
    }

    /// Whether, and how, the download of an orphan continues after a
    /// stream: not if its last block is the orphan itself (it was reached),
    /// nor if its requests are exhausted; from its last block otherwise, or
    /// anew if no block arrived.
    pub fn should_continue_orphan(&self, state: OrphanHandlingState) -> (r: Option<OrphanRequest>)
        ensures
            r == Self::continuation(state, self.max_iterations()),
    {
        match state.last_block {
            Some(last) => {
                if last == state.orphan_id {
                    None
                } else if state.requests_count >= self.max_number_of_iterations {
                    None
                } else {
                    Some(
                        OrphanRequest {
                            orphan_id: state.orphan_id,
                            known_block: Some(last),
                            iteration: state.requests_count + 1,
                        },
                    )
                }
            },
            None => Some(
                OrphanRequest {
                    orphan_id: state.orphan_id,
                    known_block: None,
                    iteration: state.requests_count,
                },
            ),
        }
    }

    /// See [`OrphanHandler::should_continue_orphan`].
    pub open spec fn continuation(state: OrphanHandlingState, max_iterations: nat) -> Option<
        OrphanRequest,
    > {
        match state.last_block {
            Some(last) => if last == state.orphan_id || state.requests_count >= max_iterations {
                None
            } else {
                Some(
                    OrphanRequest {
                        orphan_id: state.orphan_id,
                        known_block: Some(last),
                        iteration: (state.requests_count + 1) as usize,
                    },
                )
            },
            None => Some(
                OrphanRequest {
                    orphan_id: state.orphan_id,
                    known_block: None,
                    iteration: state.requests_count,
                },
            ),
        }
    }

    /// Decides the next orphan request: the continuation of the current
    /// orphan if there is one, or else a fresh request for some pending
    /// orphan, which leaves the pending ones. The current orphan is dropped
    /// either way, until [`OrphanHandler::on_request_result`] records the new
    /// stream.
    pub fn next_orphan_request(&mut self) -> (r: Option<OrphanRequest>)
        requires
            old(self).wf(),
        ensures
            final(self).wf(),
            final(self).current() is None,
            final(self).max_cache() == old(self).max_cache(),
            final(self).max_iterations() == old(self).max_iterations(),
            r matches Some(req) ==> req.iteration <= old(self).max_iterations(),
            match old(self).current() {
                Some(s) if Self::continuation(s, old(self).max_iterations()) is Some => {
                    &&& r == Self::continuation(s, old(self).max_iterations())
                    &&& final(self).pending() == old(self).pending()
                },
                _ => match r {
                    None => old(self).pending() == Set::<HeaderId>::empty() && final(self).pending()
                        == old(self).pending(),
                    Some(req) => {
                        &&& old(self).pending().contains(req.orphan_id)
                        &&& req.known_block is None
                        &&& req.iteration == 0
                        &&& final(self).pending() == old(self).pending().remove(req.orphan_id)
                    },
                },
            },
    {
        let taken = self.current_orphan_state.take();
        let continued = match taken {
            Some(state) => self.should_continue_orphan(state),
            None => None,
        };
        if continued.is_some() {
            return continued;
        }
        let next = self.pending_orphans.pop_any();
        proof {
            vstd::set_lib::lemma_len_subset(self.pending_orphans@, old(self).pending_orphans@);
            if next is None {
                assert(old(self).pending_orphans@ =~= Set::<HeaderId>::empty());
            }
        }
        match next {
            Some(id) => Some(OrphanRequest { orphan_id: id, known_block: None, iteration: 0 }),
            None => None,
        }
    }

    /// Records the outcome of sending a request: on success its stream
    /// becomes the current one, with no block received yet.
    pub fn on_request_result(&mut self, request: OrphanRequest, stream_opened: bool)
        requires
            old(self).wf(),
            request.iteration <= old(self).max_iterations(),
        ensures
            final(self).wf(),
            final(self).pending() == old(self).pending(),
            final(self).max_cache() == old(self).max_cache(),
            final(self).max_iterations() == old(self).max_iterations(),
            final(self).current() == (if stream_opened {
                Some(
                    OrphanHandlingState {
                        orphan_id: request.orphan_id,
                        last_block: None,
                        streaming: true,
                        requests_count: request.iteration,
                    },
                )
            } else {
                None
            }),
    {
        if stream_opened {
            self.current_orphan_state = Some(
                OrphanHandlingState {
                    orphan_id: request.orphan_id,
                    last_block: None,
                    streaming: true,
                    requests_count: request.iteration,
                },
            );
        } else {
            self.current_orphan_state = None;
        }
    }

    /// Records what the open stream produced. A block becomes the last one
    /// of the current orphan, and the orphan leaves the pending ones. A
    /// failure drops the current orphan. The end of the stream closes it,
    /// and drops the orphan if no block arrived.
    pub fn on_stream_event(&mut self, event: StreamEvent)
        requires
            old(self).wf(),
            old(self).current() matches Some(s) && s.streaming,
        ensures
            final(self).wf(),
            final(self).max_cache() == old(self).max_cache(),
            final(self).max_iterations() == old(self).max_iterations(),
            ({
                let s = old(self).current()->0;
                match event {
                    StreamEvent::Block(id) => {
                        &&& final(self).current() == Some(
                            OrphanHandlingState { last_block: Some(id), ..s },
                        )
                        &&& final(self).pending() == old(self).pending().remove(s.orphan_id)
                    },
                    StreamEvent::Failed => {
                        &&& final(self).current() is None
                        &&& final(self).pending() == old(self).pending()
                    },
                    StreamEvent::Ended => {
                        &&& final(self).current() == (if s.last_block is None {
                            None
                        } else {
                            Some(OrphanHandlingState { streaming: false, ..s })
                        })
                        &&& final(self).pending() == old(self).pending()
                    },
                }
            }),
    {
        let state = self.current_orphan_state.unwrap();
        match event {
            StreamEvent::Block(id) => {
                self.current_orphan_state = Some(
                    OrphanHandlingState { last_block: Some(id), ..state },
                );
                self.pending_orphans.remove(&state.orphan_id);
                proof {
                    vstd::set_lib::lemma_len_subset(
                        self.pending_orphans@,
                        old(self).pending_orphans@,
                    );
                }
            },
            StreamEvent::Failed => {
                self.current_orphan_state = None;
            },
            StreamEvent::Ended => {
                if state.last_block.is_none() {
                    self.current_orphan_state = None;
                } else {
                    self.current_orphan_state = Some(
                        OrphanHandlingState { streaming: false, ..state },
                    );
                }
            },
        }
    }

    /// The pending orphans, in no particular order.
    pub fn pending_orphans(&self) -> (v: Vec<HeaderId>)
        requires
            self.wf(),
        ensures
            v@.no_duplicates(),
            v@.to_set() == self.pending(),
    {
        self.pending_orphans.to_vec()
    }

    /// The orphan being handled, if any.
    pub fn current_orphan(&self) -> (s: Option<OrphanHandlingState>)
        ensures
            s == self.current(),
    {
        self.current_orphan_state
    }

    /// The maximal number of pending orphans.
    pub fn max_orphan_cache_size(&self) -> (n: usize)
        ensures
            n == self.max_cache(),
    {
        self.max_orphan_cache_size
    }
}

} // verus!
