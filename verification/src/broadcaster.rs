use vstd::prelude::*;

use crate::branches::Branch;
use crate::fork_choice::State;
use crate::header::HeaderId;

verus! {

/// A finalized block, as broadcast to other services.
#[derive(Clone, Copy, Debug, PartialEq, Eq)]
pub struct BlockInfo {
    pub height: u64,
    pub header_id: HeaderId,
}

/// Broadcasting errors.
#[derive(Clone, Copy, Debug, PartialEq, Eq)]
pub enum Error {
    /// The engine is not in the state the broadcaster was made for.
    UnexpectedCryptarchiaState(State),
}

/// The broadcast information of a block.
pub open spec fn block_info(b: Branch) -> BlockInfo {
    BlockInfo { height: b.length, header_id: b.id }
}

/// The broadcast information of every block of `path` but the first.
pub open spec fn blocks_after_lca(path: Seq<Branch>) -> Seq<BlockInfo> {
    if path.len() == 0 {
        Seq::empty()
    } else {
        path.skip(1).map_values(|b: Branch| block_info(b))
    }
}

/// Broadcasts finalized blocks of an engine in Online state: the LIB, when
/// it differs from the LIB the broadcaster was made with.
#[derive(Clone, Copy, Debug)]
pub struct OnlineBlockBroadcaster {
    pub prev_lib: HeaderId,
}

/// Broadcasts potentially finalized blocks of an engine in Bootstrapping
/// state (where the LIB never moves): those deeper than the security
/// parameter below the tip.
#[derive(Clone, Copy, Debug)]
pub struct BootstrappingBlockBroadcaster {
    pub prev_block_at_security_param: Branch,
}

/// The broadcaster that fits the state of an engine.
#[derive(Clone, Copy, Debug)]
pub enum BlockBroadcaster {
    Online(OnlineBlockBroadcaster),
    Bootstrapping(BootstrappingBlockBroadcaster),
}

/// Makes the broadcaster for an engine in `state`, whose LIB is `lib` and
/// whose block at the security parameter below the tip is
/// `block_at_security_param`.
pub fn new(state: State, lib: HeaderId, block_at_security_param: Branch) -> (b: BlockBroadcaster)
    ensures
        b == (match state {
            State::Bootstrapping => BlockBroadcaster::Bootstrapping(
                BootstrappingBlockBroadcaster { prev_block_at_security_param: block_at_security_param },
            ),
            State::Online => BlockBroadcaster::Online(OnlineBlockBroadcaster { prev_lib: lib }),
        }),
{
    match state {
        State::Bootstrapping => BlockBroadcaster::Bootstrapping(
            BootstrappingBlockBroadcaster { prev_block_at_security_param: block_at_security_param },
        ),
        State::Online => BlockBroadcaster::Online(OnlineBlockBroadcaster { prev_lib: lib }),
    }
}

impl OnlineBlockBroadcaster {
    /// The block to broadcast for an engine in `state` whose LIB is `lib`:
    /// the LIB if it changed, nothing otherwise. Fails unless the engine is
    /// online.
    pub fn broadcast(&self, state: State, lib: Branch) -> (r: Result<Option<BlockInfo>, Error>)
        ensures
            state != State::Online ==> r == Err::<Option<BlockInfo>, Error>(
                Error::UnexpectedCryptarchiaState(state),
            ),
            state == State::Online ==> r == Ok::<Option<BlockInfo>, Error>(
                if self.prev_lib != lib.id {
                    Some(block_info(lib))
                } else {
                    None
                },
            ),
    {
        if !state.is_online() {
            return Err(Error::UnexpectedCryptarchiaState(state));
        }
        if self.prev_lib != lib.id {
            Ok(Some(BlockInfo { height: lib.length, header_id: lib.id }))
        } else {
            Ok(None)
        }
    }
}

impl BootstrappingBlockBroadcaster {
    /// The blocks to broadcast for an engine in `state`, given the blocks
    /// from the common ancestor of the previous and the current security
    /// block to the current one (inclusive both, parent first): all but
    /// that common ancestor, in order. Fails unless the engine is
    /// bootstrapping.
    pub fn broadcast(&self, state: State, path_from_lca: &Vec<Branch>) -> (r: Result<
        Vec<BlockInfo>,
        Error,
    >)
        ensures
            state != State::Bootstrapping ==> (r matches Err(e) && e
                == Error::UnexpectedCryptarchiaState(state)),
            state == State::Bootstrapping ==> (r matches Ok(v) && v@ == blocks_after_lca(
                path_from_lca@,
            )),
    {
        if !state.is_bootstrapping() {
            return Err(Error::UnexpectedCryptarchiaState(state));
        }
        let mut infos: Vec<BlockInfo> = Vec::new();
        if path_from_lca.len() == 0 {
            assert(infos@ =~= blocks_after_lca(path_from_lca@));
            return Ok(infos);
        }
        let mut i: usize = 1;
        assert(infos@ =~= path_from_lca@.subrange(1, 1).map_values(|b: Branch| block_info(b)));
        while i < path_from_lca.len()
            invariant
                1 <= i <= path_from_lca@.len(),
                infos@ =~= path_from_lca@.subrange(1, i as int).map_values(
                    |b: Branch| block_info(b),
                ),
            decreases path_from_lca@.len() - i,
        {
            let b = path_from_lca[i];
            infos.push(BlockInfo { height: b.length, header_id: b.id });
            i = i + 1;
            assert(infos@ =~= path_from_lca@.subrange(1, i as int).map_values(
                |b: Branch| block_info(b),
            ));
        }
        assert(path_from_lca@.subrange(1, i as int) =~= path_from_lca@.skip(1));
        Ok(infos)
    }
}

} // verus!
