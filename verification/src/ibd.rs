use vstd::prelude::*;

use std::collections::VecDeque;

use crate::header::HeaderId;

verus! {

/// A peer of the network, by number.
pub type PeerId = u64;

/// The number of downloads that may be repeated for one peer, by default.
pub const DEFAULT_MAX_DOWNLOAD_ITERATIONS: usize = 1000;

/// The default for [`IbdConfig::max_download_iterations`].
pub fn default_max_download_iterations() -> (n: usize)
    ensures
        n == DEFAULT_MAX_DOWNLOAD_ITERATIONS,
        n > 0,
{
    DEFAULT_MAX_DOWNLOAD_ITERATIONS
}

/// Initial block download configuration.
#[derive(Clone, Debug)]
pub struct IbdConfig {
    /// Peers to download blocks from.
    pub peers: Vec<PeerId>,
    /// The max number of downloads to repeat for a single peer (positive).
    pub max_download_iterations: usize,
}

impl IbdConfig {
    /// A configuration is valid when it allows at least one download per peer.
    pub open spec fn wf(&self) -> bool {
        self.max_download_iterations > 0
    }

    /// A configuration, refused (`None`) when `max_download_iterations` is 0.
    pub fn new(peers: Vec<PeerId>, max_download_iterations: usize) -> (r: Option<IbdConfig>)
        ensures
            r is Some <==> max_download_iterations > 0,
            r matches Some(c) ==> c.wf() && c.peers@ == peers@ && c.max_download_iterations
                == max_download_iterations,
    {
        if max_download_iterations == 0 {
            None
        } else {
            Some(IbdConfig { peers, max_download_iterations })
        }
    }
}

/// Errors of the initial block download.
#[derive(Clone, Copy, Debug, PartialEq, Eq, Structural)]
pub enum IbdError {
    /// The peer failed to answer.
    BlockProvider,
    /// The peer was asked for as many downloads as allowed.
    MaxDownloadIterationsReached,
}

/// One running download from a peer.
#[derive(Clone, Copy, Debug, PartialEq, Eq)]
pub struct Download {
    pub peer: PeerId,
    /// How many downloads from this peer came before this one.
    pub iteration: usize,
    /// The tip of the peer that the download aims at.
    pub target: HeaderId,
    /// The last block received, if any.
    pub last: Option<HeaderId>,
}

impl Download {
    /// A download that has not received any block yet.
    pub fn new(peer: PeerId, iteration: usize, target: HeaderId) -> (d: Download)
        ensures
            d == (Download { peer, iteration, target, last: None }),
    {
        Download { peer, iteration, target, last: None }
    }
}

/// The parameters of the download that follows a finished one.
#[derive(Clone, Copy, Debug, PartialEq, Eq)]
pub struct NextDownload {
    pub peer: PeerId,
    pub iteration: usize,
    /// The block from which the peer should continue.
    pub latest_downloaded_block: Option<HeaderId>,
}

/// Whether a download with this iteration number may start.
pub fn check_download_iteration(iteration: usize, max_download_iterations: usize) -> (r: Result<
    (),
    IbdError,
>)
    ensures
        r is Ok <==> iteration < max_download_iterations,
        r is Err ==> r == Err::<(), IbdError>(IbdError::MaxDownloadIterationsReached),
{
    if iteration >= max_download_iterations {
        Err(IbdError::MaxDownloadIterationsReached)
    } else {
        Ok(())
    }
}

/// Whether the peer's tip must be downloaded: only if it is not known
/// locally.
pub fn should_download(target_known_locally: bool) -> (b: bool)
    ensures
        b == !target_known_locally,
{
    !target_known_locally
}

/// The download to start after `prev` finished: the same peer, the next
/// iteration, continuing from the last block received. `None` if the
/// iteration number would overflow.
pub fn next_download(prev: &Download) -> (r: Option<NextDownload>)
    ensures
        prev.iteration < usize::MAX ==> r == Some(
            NextDownload {
                peer: prev.peer,
                iteration: (prev.iteration + 1) as usize,
                latest_downloaded_block: prev.last,
            },
        ),
        prev.iteration == usize::MAX ==> r is None,
{
    match prev.iteration.checked_add(1) {
        Some(iteration) => Some(
            NextDownload { peer: prev.peer, iteration, latest_downloaded_block: prev.last },
        ),
        None => None,
    }
}

/// The blocks that a download declares as known besides the local tip and
/// LIB: the last block of the previous download, if any.
pub fn additional_known_blocks(latest_downloaded_block: Option<HeaderId>) -> (v: Vec<HeaderId>)
    ensures
        v@ == (match latest_downloaded_block {
            Some(id) => seq![id],
            None => Seq::<HeaderId>::empty(),
        }),
{
    let mut v: Vec<HeaderId> = Vec::new();
    if let Some(id) = latest_downloaded_block {
        v.push(id);
    }
    proof {
        if latest_downloaded_block is None {
            assert(v@ =~= Seq::<HeaderId>::empty());
        }
    }
    v
}

/// What reading one block from a download gave.
#[derive(Clone, Copy, Debug)]
pub enum TurnOutcome {
    /// A block with this id.
    Block(HeaderId),
    /// The stream ended.
    Ended,
    /// The stream failed.
    Failed,
}

/// What follows a download's turn.
#[derive(Clone, Copy, Debug)]
pub enum TurnAction {
    /// Hand the block to the chain; the download waits for its next turn.
    ProcessBlock(HeaderId),
    /// Start the follow-up download from the same peer.
    InitiateNext(NextDownload),
    /// The download is dropped.
    Dropped,
}

/// The running downloads, read one block at a time in a round-robin
/// fashion so that no single peer forms a long chain alone.
pub struct DownloadRound {
    queue: VecDeque<Download>,
}

impl View for DownloadRound {
    type V = Seq<Download>;

    closed spec fn view(&self) -> Seq<Download> {
        self.queue@
    }
}

impl DownloadRound {
    /// A round over the given downloads, in the given order.
    pub fn new(downloads: Vec<Download>) -> (r: DownloadRound)
        ensures
            r@ == downloads@,
    {
        let mut queue: VecDeque<Download> = VecDeque::new();
        let mut i: usize = 0;
        while i < downloads.len()
            invariant
                0 <= i <= downloads@.len(),
                queue@ == downloads@.take(i as int),
            decreases downloads@.len() - i,
        {
            queue.push_back(downloads[i]);
            i = i + 1;
            assert(queue@ =~= downloads@.take(i as int));
        }
        assert(downloads@.take(i as int) =~= downloads@);
        DownloadRound { queue }
    }

    /// Whether no download is left.
    pub fn is_done(&self) -> (b: bool)
        ensures
            b == (self@.len() == 0),
    {
        self.queue.len() == 0
    }

    /// Takes the download whose turn it is.
    pub fn next_turn(&mut self) -> (r: Option<Download>)
        ensures
            old(self)@.len() == 0 ==> r is None && final(self)@ == old(self)@,
            old(self)@.len() > 0 ==> r == Some(old(self)@[0]) && final(self)@ == old(self)@.drop_first(),
    {
        if self.queue.len() == 0 {
            return None;
        }
        let d = self.queue.pop_front();
        assert(self.queue@ =~= old(self)@.drop_first());
        d
    }

    /// A block arrived from the download: it records the block as its last
    /// one and waits for its next turn behind all the others.
    pub fn block_received(&mut self, download: Download, block: HeaderId)
        ensures
            final(self)@ == old(self)@.push(Download { last: Some(block), ..download }),
    {
        self.queue.push_back(Download { last: Some(block), ..download });
    }

    /// Decides what follows a download's turn: a block is processed and the
    /// download goes behind all the others with the block as its last one;
    /// a failed download is dropped; an ended one is followed by a new
    /// download from the same peer (unless its iteration count is
    /// exhausted), which joins through [`DownloadRound::resume`] if it can
    /// be started.
    pub fn on_turn(&mut self, download: Download, outcome: TurnOutcome) -> (a: TurnAction)
        ensures
            match outcome {
                TurnOutcome::Block(id) => {
                    &&& a matches TurnAction::ProcessBlock(b) && b == id
                    &&& final(self)@ == old(self)@.push(Download { last: Some(id), ..download })
                },
                TurnOutcome::Failed => a is Dropped && final(self)@ == old(self)@,
                TurnOutcome::Ended => {
                    &&& final(self)@ == old(self)@
                    &&& download.iteration < usize::MAX ==> a == TurnAction::InitiateNext(
                        NextDownload {
                            peer: download.peer,
                            iteration: (download.iteration + 1) as usize,
                            latest_downloaded_block: download.last,
                        },
                    )
                    &&& download.iteration == usize::MAX ==> a is Dropped
                },
            },
    {
        match outcome {
            TurnOutcome::Block(id) => {
                self.block_received(download, id);
                TurnAction::ProcessBlock(id)
            },
            TurnOutcome::Failed => TurnAction::Dropped,
            TurnOutcome::Ended => match next_download(&download) {
                Some(next) => TurnAction::InitiateNext(next),
                None => TurnAction::Dropped,
            },
        }
    }

    /// A follow-up download joins the round, behind all the others.
    pub fn resume(&mut self, download: Download)
        ensures
            final(self)@ == old(self)@.push(download),
    {
        self.queue.push_back(download);
    }
}

/// The peer a single-peer download runs with: the first one, if any.
pub fn first_peer(peers: &Vec<PeerId>) -> (r: Option<PeerId>)
    ensures
        r == (if peers@.len() > 0 {
            Some(peers@[0])
        } else {
            None::<PeerId>
        }),
{
    if peers.len() > 0 {
        Some(peers[0])
    } else {
        None
    }
}

/// What happened while downloading the chain of one peer.
#[derive(Clone, Copy, Debug)]
pub enum PeerSyncEvent {
    /// The peer reported its tip.
    TipReceived(HeaderId),
    /// A block of the requested stream arrived.
    BlockReceived(HeaderId),
    /// The requested stream ended; `tip_applied` tells whether the local
    /// chain now has the tip last reported by the peer.
    StreamEnded { tip_applied: bool },
    /// The peer failed to answer or the stream failed.
    Failed,
}

/// What the download from one peer does next.
#[derive(Clone, Copy, Debug)]
pub enum PeerSyncAction {
    /// Ask the peer for its blocks up to `target`, declaring the last block
    /// downloaded so far as known.
    RequestBlocks { target: HeaderId, latest_downloaded_block: Option<HeaderId> },
    /// Hand the block to the chain.
    ProcessBlock(HeaderId),
    /// Ask the peer for its tip again.
    RequestTip,
    /// The peer's chain is downloaded.
    Complete,
    /// The download fails.
    Abort,
}

/// The download of one peer's chain: ask for its tip, download blocks up to
/// it, and repeat until the local chain has the tip.
#[derive(Clone, Copy, Debug)]
pub struct PeerSync {
    /// The last block downloaded so far.
    pub latest_downloaded_block: Option<HeaderId>,
}

/// The action that answers an event of a peer download.
pub open spec fn peer_sync_action(latest: Option<HeaderId>, event: PeerSyncEvent) -> PeerSyncAction {
    match event {
        PeerSyncEvent::TipReceived(tip) => PeerSyncAction::RequestBlocks {
            target: tip,
            latest_downloaded_block: latest,
        },
        PeerSyncEvent::BlockReceived(id) => PeerSyncAction::ProcessBlock(id),
        PeerSyncEvent::StreamEnded { tip_applied } => if tip_applied {
            PeerSyncAction::Complete
        } else {
            PeerSyncAction::RequestTip
        },
        PeerSyncEvent::Failed => PeerSyncAction::Abort,
    }
}

impl PeerSync {
    /// A download that has received nothing yet.
    pub fn new() -> (s: PeerSync)
        ensures
            s.latest_downloaded_block is None,
    {
        PeerSync { latest_downloaded_block: None }
    }

    /// Decides the next step of the download; a received block becomes the
    /// last downloaded one.
    pub fn step(&mut self, event: PeerSyncEvent) -> (a: PeerSyncAction)
        ensures
            a == peer_sync_action(old(self).latest_downloaded_block, event),
            final(self).latest_downloaded_block == (match event {
                PeerSyncEvent::BlockReceived(id) => Some(id),
                _ => old(self).latest_downloaded_block,
            }),
    {
        match event {
            PeerSyncEvent::TipReceived(tip) => PeerSyncAction::RequestBlocks {
                target: tip,
                latest_downloaded_block: self.latest_downloaded_block,
            },
            PeerSyncEvent::BlockReceived(id) => {
                self.latest_downloaded_block = Some(id);
                PeerSyncAction::ProcessBlock(id)
            },
            PeerSyncEvent::StreamEnded { tip_applied } => {
                if tip_applied {
                    PeerSyncAction::Complete
                } else {
                    PeerSyncAction::RequestTip
                }
            },
            PeerSyncEvent::Failed => PeerSyncAction::Abort,
        }
    }
}

/// A peer download completes only once the local chain has the peer's
/// tip, and every following request declares the last block received.
pub proof fn lemma_peer_sync_completes_at_tip(
    latest: Option<HeaderId>,
    event: PeerSyncEvent,
)
    ensures
        peer_sync_action(latest, event) is Complete <==> (event matches PeerSyncEvent::StreamEnded {
            tip_applied,
        } && tip_applied),
        peer_sync_action(latest, event) matches PeerSyncAction::RequestBlocks {
            latest_downloaded_block,
            ..
        } ==> latest_downloaded_block == latest,
{
}

} // verus!
