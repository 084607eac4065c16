use full_block::{
    BlockRequest, FetchFullBlockFuture, FullBlockClient, FullBlockRequest, PeerId,
    PeerRequestResult, Poll, Progress, Reaction, RequestError, ResponseResult, SealedBlock,
    SealedHeader, WithPeerId, H256,
};
use std::cell::Cell;

type Fetch = FetchFullBlockFuture<&'static str, Vec<u8>>;

fn hash(byte: u8) -> H256 {
    H256([byte; 32])
}

fn peer(byte: u8) -> PeerId {
    PeerId([byte; 64])
}

fn header(name: &'static str, number: u64, h: H256) -> SealedHeader<&'static str> {
    SealedHeader::new(name, number, h)
}

fn header_response(
    from: PeerId,
    header: Option<SealedHeader<&'static str>>,
) -> ResponseResult<&'static str, Vec<u8>> {
    ResponseResult::Header(Ok(WithPeerId::new(from, header)))
}

fn body_response(from: PeerId, body: Option<Vec<u8>>) -> ResponseResult<&'static str, Vec<u8>> {
    ResponseResult::Body(Ok(WithPeerId::new(from, body)))
}

fn quiet() -> Reaction<BlockRequest> {
    Reaction { penalize: None, request: None }
}

#[test]
fn single_starts_with_both_requests_in_flight() {
    let fetch: Fetch = FullBlockClient::new(()).get_full_block(hash(1));
    assert_eq!(*fetch.hash(), hash(1));
    assert_eq!(
        *fetch.request(),
        FullBlockRequest { header: Some(hash(1)), body: Some(hash(1)) }
    );
    assert_eq!(fetch.block_number(), None);
}

#[test]
fn single_new_is_what_the_client_starts() {
    let a: Fetch = FetchFullBlockFuture::new(hash(4));
    let b: Fetch = FullBlockClient::new(17u32).get_full_block(hash(4));
    assert_eq!(a.hash(), b.hash());
    assert_eq!(a.request(), b.request());
}

#[test]
fn single_header_then_body_yields_the_block() {
    let mut fetch: Fetch = FetchFullBlockFuture::new(hash(1));
    let h = header("h", 42, hash(1));
    assert_eq!(fetch.on_response(header_response(peer(1), Some(h.clone()))), quiet());
    assert_eq!(fetch.block_number(), Some(42));
    assert_eq!(*fetch.request(), FullBlockRequest { header: None, body: Some(hash(1)) });
    assert_eq!(fetch.take_block(), None);
    assert_eq!(fetch.on_response(body_response(peer(2), Some(vec![1, 2, 3]))), quiet());
    assert_eq!(*fetch.request(), FullBlockRequest { header: None, body: None });
    assert_eq!(fetch.take_block(), Some(SealedBlock::new(h, vec![1, 2, 3])));
}

#[test]
fn single_body_then_header_yields_the_block() {
    let mut fetch: Fetch = FetchFullBlockFuture::new(hash(1));
    let h = header("h", 0, hash(1));
    assert_eq!(fetch.on_response(body_response(peer(2), Some(vec![]))), quiet());
    assert_eq!(fetch.block_number(), None);
    assert_eq!(fetch.take_block(), None);
    assert_eq!(fetch.on_response(header_response(peer(1), Some(h.clone()))), quiet());
    assert_eq!(fetch.take_block(), Some(SealedBlock::new(h, vec![])));
}

#[test]
fn single_block_is_yielded_once() {
    let mut fetch: Fetch = FetchFullBlockFuture::new(hash(1));
    fetch.on_response(header_response(peer(1), Some(header("h", 5, hash(1)))));
    fetch.on_response(body_response(peer(1), Some(vec![9])));
    assert!(fetch.take_block().is_some());
    assert_eq!(fetch.take_block(), None);
    assert_eq!(fetch.block_number(), None);
    assert_eq!(*fetch.request(), FullBlockRequest { header: None, body: None });
    assert_eq!(fetch.on_response(header_response(peer(1), Some(header("h", 5, hash(1))))), quiet());
    assert_eq!(fetch.on_response(body_response(peer(1), None)), quiet());
    assert_eq!(fetch.take_block(), None);
}

#[test]
fn single_wrong_header_is_penalized_and_requested_again() {
    let mut fetch: Fetch = FetchFullBlockFuture::new(hash(1));
    let wrong = header("wrong", 42, hash(2));
    let reaction = fetch.on_response(header_response(peer(3), Some(wrong)));
    assert_eq!(
        reaction,
        Reaction { penalize: Some(peer(3)), request: Some(BlockRequest::Header(hash(1))) }
    );
    assert_eq!(fetch.block_number(), None);
    assert_eq!(fetch.request().header, Some(hash(1)));

    fetch.on_response(body_response(peer(4), Some(vec![1])));
    assert_eq!(fetch.take_block(), None);

    let right = header("right", 43, hash(1));
    assert_eq!(fetch.on_response(header_response(peer(5), Some(right.clone()))), quiet());
    let block = fetch.take_block().unwrap();
    assert_eq!(block.hash(), hash(1));
    assert_eq!(block, SealedBlock::new(right, vec![1]));
}

#[test]
fn single_hash_differing_in_last_byte_is_wrong() {
    let mut fetch: Fetch = FetchFullBlockFuture::new(hash(1));
    let mut bytes = [1u8; 32];
    bytes[31] = 0;
    let reaction = fetch.on_response(header_response(peer(3), Some(header("x", 1, H256(bytes)))));
    assert_eq!(reaction.penalize, Some(peer(3)));
    assert_eq!(fetch.block_number(), None);
}

#[test]
fn single_missing_header_is_requested_again_without_penalty() {
    let mut fetch: Fetch = FetchFullBlockFuture::new(hash(1));
    let reaction = fetch.on_response(header_response(peer(3), None));
    assert_eq!(reaction, Reaction { penalize: None, request: Some(BlockRequest::Header(hash(1))) });
    assert_eq!(fetch.request().header, Some(hash(1)));
}

#[test]
fn single_failed_header_request_is_sent_again_without_penalty() {
    for err in [
        RequestError::ChannelClosed,
        RequestError::ConnectionDropped,
        RequestError::UnsupportedCapability,
        RequestError::Timeout,
        RequestError::BadResponse,
    ] {
        let mut fetch: Fetch = FetchFullBlockFuture::new(hash(1));
        let reaction = fetch.on_response(ResponseResult::Header(Err(err)));
        assert_eq!(
            reaction,
            Reaction { penalize: None, request: Some(BlockRequest::Header(hash(1))) }
        );
        assert_eq!(*fetch.request(), FullBlockRequest { header: Some(hash(1)), body: Some(hash(1)) });
    }
}

#[test]
fn single_missing_or_failed_body_is_requested_again() {
    let mut fetch: Fetch = FetchFullBlockFuture::new(hash(1));
    let reaction = fetch.on_response(body_response(peer(3), None));
    assert_eq!(reaction, Reaction { penalize: None, request: Some(BlockRequest::Body(hash(1))) });
    let reaction = fetch.on_response(ResponseResult::Body(Err(RequestError::Timeout)));
    assert_eq!(reaction, Reaction { penalize: None, request: Some(BlockRequest::Body(hash(1))) });
    assert_eq!(fetch.request().body, Some(hash(1)));
    assert_eq!(fetch.take_block(), None);
}

#[test]
fn single_response_to_no_request_is_dropped() {
    let mut fetch: Fetch = FetchFullBlockFuture::new(hash(1));
    fetch.on_response(header_response(peer(1), Some(header("first", 7, hash(1)))));
    let reaction = fetch.on_response(header_response(peer(2), Some(header("second", 8, hash(1)))));
    assert_eq!(reaction, quiet());
    let reaction = fetch.on_response(header_response(peer(2), Some(header("bad", 8, hash(2)))));
    assert_eq!(reaction, quiet());
    assert_eq!(fetch.block_number(), Some(7));
    fetch.on_response(body_response(peer(1), Some(vec![1])));
    let reaction = fetch.on_response(body_response(peer(1), None));
    assert_eq!(reaction, quiet());
    assert_eq!(fetch.take_block(), Some(SealedBlock::new(header("first", 7, hash(1)), vec![1])));
}

#[test]
fn racer_prefers_the_header_and_leaves_the_body_alone() {
    let mut slots = FullBlockRequest { header: Some(hash(1)), body: Some(hash(1)) };
    let body_polled = Cell::new(false);
    let out: Poll<ResponseResult<&'static str, Vec<u8>>> = slots.poll(
        || Poll::Ready(Err(RequestError::Timeout)),
        || {
            body_polled.set(true);
            Poll::Ready(Err(RequestError::Timeout))
        },
    );
    assert!(matches!(out, Poll::Ready(ResponseResult::Header(Err(RequestError::Timeout)))));
    assert!(!body_polled.get());
    assert_eq!(slots, FullBlockRequest { header: None, body: Some(hash(1)) });
}

#[test]
fn racer_reports_the_body_when_the_header_is_pending() {
    let mut slots = FullBlockRequest { header: Some(hash(1)), body: Some(hash(1)) };
    let out: Poll<ResponseResult<&'static str, Vec<u8>>> = slots.poll(
        || Poll::Pending,
        || Poll::Ready(Ok(WithPeerId::new(peer(1), Some(vec![5])))),
    );
    match out {
        Poll::Ready(ResponseResult::Body(Ok(envelope))) => {
            assert_eq!(envelope.split(), (peer(1), Some(vec![5])));
        }
        other => panic!("unexpected: {:?}", other),
    }
    assert_eq!(slots, FullBlockRequest { header: Some(hash(1)), body: None });
}

#[test]
fn racer_is_pending_when_nothing_is_ready() {
    let mut slots = FullBlockRequest { header: Some(hash(1)), body: Some(hash(1)) };
    let out: Poll<ResponseResult<&'static str, Vec<u8>>> =
        slots.poll(|| Poll::Pending, || Poll::Pending);
    assert!(matches!(out, Poll::Pending));
    assert_eq!(slots, FullBlockRequest { header: Some(hash(1)), body: Some(hash(1)) });
}

#[test]
fn racer_does_not_poll_empty_slots() {
    let mut slots = FullBlockRequest { header: None, body: None };
    let polled = Cell::new(0u32);
    let out: Poll<ResponseResult<&'static str, Vec<u8>>> = slots.poll(
        || {
            polled.set(polled.get() + 1);
            Poll::Ready(Err(RequestError::Timeout))
        },
        || {
            polled.set(polled.get() + 1);
            Poll::Ready(Err(RequestError::Timeout))
        },
    );
    assert!(matches!(out, Poll::Pending));
    assert_eq!(polled.get(), 0);

    let mut slots = FullBlockRequest { header: None, body: Some(hash(2)) };
    let out: Poll<ResponseResult<&'static str, Vec<u8>>> = slots.poll(
        || {
            polled.set(polled.get() + 1);
            Poll::Ready(Err(RequestError::Timeout))
        },
        || Poll::Ready(Ok(WithPeerId::new(peer(1), None))),
    );
    assert!(matches!(out, Poll::Ready(ResponseResult::Body(Ok(_)))));
    assert_eq!(polled.get(), 0);
    assert_eq!(slots, FullBlockRequest { header: None, body: None });
}

#[test]
fn single_poll_suspends_when_nothing_is_ready() {
    let mut fetch: Fetch = FetchFullBlockFuture::new(hash(1));
    let turn = fetch.poll(|| Poll::Pending, || Poll::Pending);
    assert_eq!(turn, Progress::Pending);
    assert_eq!(*fetch.request(), FullBlockRequest { header: Some(hash(1)), body: Some(hash(1)) });
}

#[test]
fn single_poll_handles_one_response_per_turn_and_completes() {
    let mut fetch: Fetch = FetchFullBlockFuture::new(hash(1));
    let h = header("h", 3, hash(1));
    let header_ready = || -> Poll<PeerRequestResult<Option<SealedHeader<&'static str>>>> {
        Poll::Ready(Ok(WithPeerId::new(peer(1), Some(header("h", 3, hash(1))))))
    };
    let body_ready =
        || -> Poll<PeerRequestResult<Option<Vec<u8>>>> { Poll::Ready(Ok(WithPeerId::new(peer(2), Some(vec![8])))) };

    let turn = fetch.poll(header_ready, body_ready);
    assert_eq!(turn, Progress::Continue(quiet()));
    assert_eq!(fetch.block_number(), Some(3));
    assert_eq!(*fetch.request(), FullBlockRequest { header: None, body: Some(hash(1)) });

    let turn = fetch.poll(|| panic!("no header request is in flight"), body_ready);
    assert_eq!(turn, Progress::Ready(SealedBlock::new(h, vec![8])));
    assert_eq!(*fetch.request(), FullBlockRequest { header: None, body: None });

    let turn = fetch.poll(|| panic!("finished"), || panic!("finished"));
    assert_eq!(turn, Progress::Pending);
}

#[test]
fn single_poll_reports_penalty_and_retry() {
    let mut fetch: Fetch = FetchFullBlockFuture::new(hash(1));
    let turn = fetch.poll(
        || Poll::Ready(Ok(WithPeerId::new(peer(6), Some(header("bad", 3, hash(9)))))),
        || Poll::Pending,
    );
    assert_eq!(
        turn,
        Progress::Continue(Reaction {
            penalize: Some(peer(6)),
            request: Some(BlockRequest::Header(hash(1))),
        })
    );
    let turn = fetch.poll(|| Poll::Pending, || Poll::Ready(Err(RequestError::ConnectionDropped)));
    assert_eq!(
        turn,
        Progress::Continue(Reaction { penalize: None, request: Some(BlockRequest::Body(hash(1))) })
    );
    assert_eq!(*fetch.request(), FullBlockRequest { header: Some(hash(1)), body: Some(hash(1)) });
}
