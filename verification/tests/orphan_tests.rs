use std::collections::{HashMap, VecDeque};

use nomos_chain::header::{HeaderId, Id32};
use nomos_chain::orphan_handler::{OrphanHandler, OrphanRequest, StreamEvent};

const ORPHAN_CACHE_SIZE: usize = 5;
const SECURITY_PARAM: u32 = 100;

type Stream = VecDeque<Result<HeaderId, String>>;

/// A network whose peers answer orphan requests with preset streams, keyed
/// by the orphan and the block declared as known.
struct MockNetwork {
    requests: Vec<OrphanRequest>,
    responses: HashMap<(HeaderId, Option<HeaderId>), Stream>,
}

impl MockNetwork {
    fn new() -> Self {
        Self { requests: Vec::new(), responses: HashMap::new() }
    }

    fn with_initial_stream(mut self, orphan_id: HeaderId, blocks: Vec<Result<HeaderId, String>>) -> Self {
        self.responses.insert((orphan_id, None), blocks.into_iter().collect());
        self
    }

    fn with_following_stream(
        mut self,
        orphan_id: HeaderId,
        last_block: HeaderId,
        blocks: Vec<Result<HeaderId, String>>,
    ) -> Self {
        self.responses.insert((orphan_id, Some(last_block)), blocks.into_iter().collect());
        self
    }
}

/// The orphan handler with its network and its open stream.
struct Downloader {
    handler: OrphanHandler,
    network: MockNetwork,
    stream: Stream,
}

impl Downloader {
    fn new(network: MockNetwork) -> Self {
        Self {
            handler: OrphanHandler::new(ORPHAN_CACHE_SIZE, SECURITY_PARAM),
            network,
            stream: VecDeque::new(),
        }
    }

    /// Returns a block of the open stream, or else starts the next request.
    fn request_blocks(&mut self) -> Option<HeaderId> {
        if self.handler.is_streaming() {
            match self.stream.pop_front() {
                Some(Ok(block)) => {
                    self.handler.on_stream_event(StreamEvent::Block(block));
                    return Some(block);
                }
                Some(Err(_)) => self.handler.on_stream_event(StreamEvent::Failed),
                None => self.handler.on_stream_event(StreamEvent::Ended),
            }
        }
        if let Some(request) = self.handler.next_orphan_request() {
            self.network.requests.push(request);
            match self.network.responses.remove(&(request.orphan_id, request.known_block)) {
                Some(stream) => {
                    self.stream = stream;
                    self.handler.on_request_result(request, true);
                }
                None => self.handler.on_request_result(request, false),
            }
        }
        None
    }

    fn poll_until_block_or_done(&mut self) -> Option<HeaderId> {
        for _ in 0..1000 {
            match self.request_blocks() {
                Some(block) => return Some(block),
                None => {
                    if !self.handler.should_call() {
                        return None;
                    }
                }
            }
        }
        panic!("Test timed out waiting for block");
    }
}

fn create_chain(size: usize) -> Vec<HeaderId> {
    (1..=size).map(|i| Id32::repeat(i as u8)).collect()
}

fn oks(blocks: &[HeaderId]) -> Vec<Result<HeaderId, String>> {
    blocks.iter().copied().map(Ok).collect()
}

#[test]
fn test_orphan_cache_limit() {
    let mut handler = OrphanHandler::new(ORPHAN_CACHE_SIZE, SECURITY_PARAM);
    let mut added_orphans = Vec::new();
    for i in 0..handler.max_orphan_cache_size() {
        let orphan = Id32::repeat(i as u8);
        handler.add_orphan(orphan);
        added_orphans.push(orphan);
    }
    assert_eq!(handler.pending_orphans().len(), handler.max_orphan_cache_size());
    for orphan in &added_orphans {
        assert!(handler.pending_orphans().contains(orphan));
    }
    let extra_orphan = Id32::repeat(255);
    handler.add_orphan(extra_orphan);
    assert_eq!(handler.pending_orphans().len(), handler.max_orphan_cache_size());
    assert!(!handler.pending_orphans().contains(&extra_orphan));
}

#[test]
fn test_remove_orphan() {
    let mut handler = OrphanHandler::new(ORPHAN_CACHE_SIZE, SECURITY_PARAM);
    let orphan_id = Id32::repeat(1);
    handler.add_orphan(orphan_id);
    assert!(handler.should_call());
    handler.remove_orphan_if_present(&orphan_id);
    assert!(!handler.should_call());
}

#[test]
fn test_has_orphans_with_active_stream() {
    let chain = create_chain(2);
    let orphan_id = chain[1];
    let network = MockNetwork::new().with_initial_stream(orphan_id, oks(&chain));
    let mut downloader = Downloader::new(network);
    downloader.handler.add_orphan(orphan_id);
    let _ = downloader.request_blocks();
    assert_eq!(downloader.handler.pending_orphans().len(), 0);
    assert!(downloader.handler.should_call());
}

#[test]
fn test_next_block_successful_stream() {
    let chain = create_chain(3);
    let orphan_id = *chain.last().unwrap();
    let network = MockNetwork::new().with_initial_stream(orphan_id, oks(&chain));
    let mut downloader = Downloader::new(network);
    downloader.handler.add_orphan(orphan_id);
    for expected_id in &chain {
        let block = downloader.poll_until_block_or_done();
        assert_eq!(block, Some(*expected_id));
    }
    let block = downloader.poll_until_block_or_done();
    assert!(block.is_none());
    assert!(!downloader.handler.should_call());
}

#[test]
fn test_next_block_network_error() {
    let orphan_id = Id32::repeat(1);
    let network = MockNetwork::new().with_initial_stream(orphan_id, vec![Err("Network timeout".into())]);
    let mut downloader = Downloader::new(network);
    downloader.handler.add_orphan(orphan_id);
    let block = downloader.poll_until_block_or_done();
    assert!(block.is_none());
    assert!(!downloader.handler.should_call());
}

#[test]
fn test_multiple_orphans() {
    let chain = create_chain(10);
    let orphan1_id = chain[2];
    let orphan2_id = chain[7];
    let network = MockNetwork::new()
        .with_initial_stream(orphan1_id, oks(&chain[0..=2]))
        .with_initial_stream(orphan2_id, oks(&chain[5..=7]));
    let mut downloader = Downloader::new(network);
    downloader.handler.add_orphan(orphan1_id);
    downloader.handler.add_orphan(orphan2_id);
    let mut all_blocks = vec![];
    while let Some(block) = downloader.poll_until_block_or_done() {
        all_blocks.push(block);
    }
    assert_eq!(downloader.network.requests.len(), 2);
    let first_requested = downloader.network.requests[0].orphan_id;
    assert_eq!(all_blocks.len(), 6);
    let expected_ids = if first_requested == orphan1_id {
        [&chain[0..=2], &chain[5..=7]].concat()
    } else {
        [&chain[5..=7], &chain[0..=2]].concat()
    };
    assert_eq!(all_blocks, expected_ids);
    assert!(!downloader.handler.should_call());
}

#[test]
fn test_stream_with_errors_midway() {
    let chain = create_chain(3);
    let orphan_id = chain[2];
    let network = MockNetwork::new().with_initial_stream(
        orphan_id,
        vec![Ok(chain[0]), Err("Stream error".into()), Ok(chain[1])],
    );
    let mut downloader = Downloader::new(network);
    downloader.handler.add_orphan(orphan_id);
    let block1 = downloader.poll_until_block_or_done();
    assert!(block1.is_some());
    let block2 = downloader.poll_until_block_or_done();
    assert!(block2.is_none());
    assert!(!downloader.handler.should_call());
}

#[test]
fn test_cancel_active_stream() {
    let chain = create_chain(3);
    let orphan_id = chain[2];
    let network = MockNetwork::new().with_initial_stream(orphan_id, oks(&chain));
    let mut downloader = Downloader::new(network);
    downloader.handler.add_orphan(orphan_id);
    let first = downloader.poll_until_block_or_done();
    assert!(first.is_some());
    assert!(downloader.handler.is_streaming());
    downloader.handler.cancel_active_stream();
    assert!(!downloader.handler.is_streaming());
    let next = downloader.poll_until_block_or_done();
    assert!(next.is_none());
}

#[test]
fn test_cancel_stream_continues_with_next_orphan() {
    let chain = create_chain(10);
    let orphan1_id = chain[2];
    let orphan2_id = chain[7];
    let network = MockNetwork::new()
        .with_initial_stream(orphan1_id, oks(&chain[0..=2]))
        .with_initial_stream(orphan2_id, oks(&chain[5..=7]));
    let mut downloader = Downloader::new(network);
    downloader.handler.add_orphan(orphan1_id);
    downloader.handler.add_orphan(orphan2_id);
    let _ = downloader.poll_until_block_or_done();
    let first_requested = downloader.network.requests[0].orphan_id;
    downloader.handler.cancel_active_stream();
    assert!(!downloader.handler.is_streaming());
    let mut blocks_after_cancel = vec![];
    while let Some(block) = downloader.poll_until_block_or_done() {
        blocks_after_cancel.push(block);
    }
    assert_eq!(downloader.network.requests.len(), 2);
    let second_requested = downloader.network.requests[1].orphan_id;
    assert_ne!(first_requested, second_requested);
    assert!(second_requested == orphan1_id || second_requested == orphan2_id);
    assert_eq!(blocks_after_cancel.len(), 3);
    let expected_chain = if second_requested == orphan1_id { &chain[0..=2] } else { &chain[5..=7] };
    assert_eq!(blocks_after_cancel, expected_chain.to_vec());
    assert!(!downloader.handler.should_call());
}

#[test]
fn test_following_request() {
    let chain = create_chain(5);
    let orphan_id = chain[4];
    let network = MockNetwork::new()
        .with_initial_stream(orphan_id, oks(&chain[0..3]))
        .with_following_stream(orphan_id, chain[2], oks(&chain[3..5]));
    let mut downloader = Downloader::new(network);
    downloader.handler.add_orphan(orphan_id);
    let mut received_blocks = vec![];
    while let Some(block) = downloader.poll_until_block_or_done() {
        received_blocks.push(block);
    }
    assert_eq!(received_blocks.len(), 5);
    assert_eq!(received_blocks, chain);
    assert!(!downloader.handler.should_call());
    assert_eq!(downloader.network.requests.len(), 2);
}

#[test]
fn test_max_iterations_limit() {
    let chain = create_chain(10);
    let orphan_id = chain[6];
    let network = MockNetwork::new()
        .with_initial_stream(orphan_id, oks(&chain[0..3]))
        .with_following_stream(orphan_id, chain[2], oks(&chain[3..=6]))
        .with_following_stream(orphan_id, chain[6], oks(&chain[7..]));
    let mut downloader = Downloader::new(network);
    downloader.handler.add_orphan(orphan_id);
    let mut received_blocks = vec![];
    while let Some(block) = downloader.poll_until_block_or_done() {
        received_blocks.push(block);
    }
    assert_eq!(received_blocks.len(), 7);
    assert_eq!(received_blocks, chain[0..=6].to_vec());
    assert!(!downloader.handler.should_call());
    assert_eq!(downloader.network.requests.len(), 2);
}

#[test]
fn test_max_iterations_with_multiple_orphans() {
    let chain = create_chain(15);
    let orphan1_id = chain[4];
    let orphan2_id = chain[12];
    let network = MockNetwork::new()
        .with_initial_stream(orphan1_id, oks(&chain[0..2]))
        .with_following_stream(orphan1_id, chain[1], oks(&chain[2..=4]))
        .with_following_stream(orphan1_id, chain[4], oks(&chain[5..7]))
        .with_initial_stream(orphan2_id, oks(&chain[10..=12]));
    let mut downloader = Downloader::new(network);
    downloader.handler.add_orphan(orphan1_id);
    downloader.handler.add_orphan(orphan2_id);
    let mut received_blocks = vec![];
    while let Some(block) = downloader.poll_until_block_or_done() {
        received_blocks.push(block);
    }
    let first_orphan = downloader.network.requests[0].orphan_id;
    assert_eq!(downloader.network.requests.len(), 3);
    assert_eq!(received_blocks.len(), 8);
    let expected_ids = if first_orphan == orphan1_id {
        [&chain[0..=4], &chain[10..=12]].concat()
    } else {
        [&chain[10..=12], &chain[0..=4]].concat()
    };
    assert_eq!(received_blocks, expected_ids);
    assert!(!downloader.handler.should_call());
}

#[test]
fn follow_up_requests_stop_at_the_iteration_limit() {
    // A security parameter of 2000 allows two follow-up requests.
    let chain = create_chain(10);
    let orphan_id = chain[9];
    let network = MockNetwork::new()
        .with_initial_stream(orphan_id, oks(&chain[0..2]))
        .with_following_stream(orphan_id, chain[1], oks(&chain[2..4]))
        .with_following_stream(orphan_id, chain[3], oks(&chain[4..6]))
        .with_following_stream(orphan_id, chain[5], oks(&chain[6..8]));
    let mut downloader = Downloader {
        handler: OrphanHandler::new(ORPHAN_CACHE_SIZE, 2000),
        network,
        stream: VecDeque::new(),
    };
    downloader.handler.add_orphan(orphan_id);
    let mut received_blocks = vec![];
    while let Some(block) = downloader.poll_until_block_or_done() {
        received_blocks.push(block);
    }
    assert_eq!(received_blocks, chain[0..6].to_vec());
    assert_eq!(downloader.network.requests.len(), 3);
    assert_eq!(downloader.network.requests[2].iteration, 2);
}

#[test]
fn the_orphan_being_downloaded_is_not_queued_again() {
    let chain = create_chain(3);
    let orphan_id = chain[2];
    let network = MockNetwork::new().with_initial_stream(orphan_id, oks(&chain));
    let mut downloader = Downloader::new(network);
    downloader.handler.add_orphan(orphan_id);
    let _ = downloader.request_blocks();
    assert!(downloader.handler.current_orphan().is_some());
    downloader.handler.add_orphan(orphan_id);
    assert!(downloader.handler.pending_orphans().is_empty());
    downloader.handler.remove_orphan_if_present(&orphan_id);
    assert!(downloader.handler.current_orphan().is_none());
}
