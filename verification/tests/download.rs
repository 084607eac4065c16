use full_block::{
    FullBlockClient, HeadersDirection, HeadersRequest, PeerId, PeerRequestResult, Poll, Progress,
    RangeRequest, SealedBlock, SealedHeader, WithPeerId, H256,
};
use std::cell::RefCell;
use std::collections::HashMap;

#[derive(Clone, Debug, Default, PartialEq, Eq)]
struct Header {
    parent_hash: Option<H256>,
    number: u64,
}

#[derive(Clone, Debug, Default, PartialEq, Eq)]
struct BlockBody {
    transactions: Vec<u64>,
}

/// A stand-in for the content hash: a digest of the header's fields.
fn digest(header: &Header) -> H256 {
    let mut bytes = [0u8; 32];
    let mut acc: u64 = 0xcbf2_9ce4_8422_2325;
    let mut feed = |byte: u8| {
        acc ^= byte as u64;
        acc = acc.wrapping_mul(0x0000_0100_0000_01b3);
    };
    for b in header.number.to_be_bytes() {
        feed(b);
    }
    if let Some(parent) = header.parent_hash {
        for b in parent.0 {
            feed(b);
        }
    }
    for (i, chunk) in bytes.chunks_mut(8).enumerate() {
        let word = acc.wrapping_add(i as u64).wrapping_mul(0x9e37_79b9_7f4a_7c15);
        chunk.copy_from_slice(&word.to_be_bytes());
    }
    H256(bytes)
}

fn seal(header: Header) -> SealedHeader<Header> {
    let hash = digest(&header);
    let number = header.number;
    SealedHeader::new(header, number, hash)
}

#[derive(Default)]
struct TestFullBlockClient {
    headers: RefCell<HashMap<H256, Header>>,
    bodies: RefCell<HashMap<H256, BlockBody>>,
    bad_messages: RefCell<Vec<PeerId>>,
}

impl TestFullBlockClient {
    fn insert(&self, header: SealedHeader<Header>, body: BlockBody) {
        let hash = header.hash();
        let header = header.unseal();
        self.headers.borrow_mut().insert(hash, header);
        self.bodies.borrow_mut().insert(hash, body);
    }

    fn report_bad_message(&self, peer: PeerId) {
        self.bad_messages.borrow_mut().push(peer);
    }

    fn get_header(&self, hash: H256) -> PeerRequestResult<Option<SealedHeader<Header>>> {
        let header = self.headers.borrow().get(&hash).cloned();
        Ok(WithPeerId::new(PeerId([7u8; 64]), header.map(seal)))
    }

    fn get_block_body(&self, hash: H256) -> PeerRequestResult<Option<BlockBody>> {
        Ok(WithPeerId::new(PeerId([7u8; 64]), self.bodies.borrow().get(&hash).cloned()))
    }

    fn get_headers(&self, request: HeadersRequest) -> PeerRequestResult<Vec<SealedHeader<Header>>> {
        let headers = self.headers.borrow();
        let mut block = Some(request.start);
        let mut resp = Vec::new();
        for _ in 0..request.limit {
            let found = block.and_then(|hash| headers.get(&hash).cloned());
            match found {
                Some(header) => {
                    match request.direction {
                        HeadersDirection::Falling => block = header.parent_hash,
                        HeadersDirection::Rising => {
                            let next = header.number + 1;
                            block = headers
                                .iter()
                                .find(|(_, h)| h.number == next)
                                .map(|(hash, _)| *hash);
                        }
                    }
                    resp.push(seal(header));
                }
                None => break,
            }
        }
        Ok(WithPeerId::new(PeerId([7u8; 64]), resp))
    }

    fn get_block_bodies(&self, hashes: Vec<H256>) -> PeerRequestResult<Vec<BlockBody>> {
        let bodies = self.bodies.borrow();
        let mut all_bodies = Vec::new();
        for hash in hashes {
            if let Some(body) = bodies.get(&hash) {
                all_bodies.push(body.clone());
            }
        }
        Ok(WithPeerId::new(PeerId([7u8; 64]), all_bodies))
    }
}

/// Drives a single-block fetch against a network on which every request
/// resolves at once.
fn fetch_block(client: &FullBlockClient<&TestFullBlockClient>, hash: H256) -> SealedBlock<Header, BlockBody> {
    let network = *client.client();
    let mut fetch = client.get_full_block::<Header, BlockBody>(hash);
    for _ in 0..64 {
        let request = *fetch.request();
        let turn = fetch.poll(
            || Poll::Ready(network.get_header(request.header.unwrap())),
            || Poll::Ready(network.get_block_body(request.body.unwrap())),
        );
        match turn {
            Progress::Pending => panic!("every request resolves at once"),
            Progress::Continue(reaction) => {
                if let Some(peer) = reaction.penalize {
                    network.report_bad_message(peer);
                }
            }
            Progress::Ready(block) => return block,
        }
    }
    panic!("the fetch did not complete");
}

/// Drives a range fetch against a network on which every request resolves at
/// once.
fn fetch_block_range(
    client: &FullBlockClient<&TestFullBlockClient>,
    hash: H256,
    count: u64,
) -> Vec<SealedBlock<Header, BlockBody>> {
    let network = *client.client();
    let mut fetch = client.get_full_block_range::<Header, BlockBody>(hash, count);
    for _ in 0..64 {
        let request = fetch.request().clone();
        let headers_request = request.headers;
        let bodies_request = request.bodies;
        let turn = fetch.poll(
            || Poll::Ready(network.get_headers(headers_request.unwrap())),
            || Poll::Ready(network.get_block_bodies(bodies_request.unwrap())),
        );
        match turn {
            Progress::Pending => panic!("every request resolves at once"),
            Progress::Continue(reaction) => {
                if let Some(peer) = reaction.penalize {
                    network.report_bad_message(peer);
                }
                if let Some(RangeRequest::Bodies(hashes)) = reaction.request {
                    assert_eq!(Some(hashes), fetch.request().bodies);
                }
            }
            Progress::Ready(blocks) => return blocks,
        }
    }
    panic!("the fetch did not complete");
}

#[test]
fn download_single_full_block() {
    let client = TestFullBlockClient::default();
    let header = seal(Header::default());
    let body = BlockBody::default();
    client.insert(header.clone(), body.clone());
    let client = FullBlockClient::new(&client);

    let received = fetch_block(&client, header.hash());
    assert_eq!(received, SealedBlock::new(header, body));
}

#[test]
fn download_single_full_block_range() {
    let client = TestFullBlockClient::default();
    let header = seal(Header::default());
    let body = BlockBody::default();
    client.insert(header.clone(), body.clone());
    let client = FullBlockClient::new(&client);

    let received = fetch_block_range(&client, header.hash(), 1);
    let received = received.first().expect("response should include a block");
    assert_eq!(*received, SealedBlock::new(header, body));
}

#[test]
fn download_full_block_range() {
    let client = TestFullBlockClient::default();
    let mut header = seal(Header::default());
    let body = BlockBody::default();
    client.insert(header.clone(), body.clone());
    for _ in 0..10 {
        let mut next = header.clone().unseal();
        next.parent_hash = Some(header.hash());
        next.number += 1;
        header = seal(next);
        client.insert(header.clone(), body.clone());
    }
    let client = FullBlockClient::new(&client);

    let received = fetch_block_range(&client, header.hash(), 1);
    let received = received.first().expect("response should include a block");
    assert_eq!(*received, SealedBlock::new(header.clone(), body));

    let received = fetch_block_range(&client, header.hash(), 10);
    assert_eq!(received.len(), 10);
    for (i, block) in received.iter().enumerate() {
        let expected_number = header.number - i as u64;
        assert_eq!(block.header.number, expected_number);
    }
}

#[test]
fn download_full_block_range_links_parents() {
    let client = TestFullBlockClient::default();
    let mut header = seal(Header::default());
    let genesis = header.hash();
    client.insert(header.clone(), BlockBody { transactions: vec![0] });
    for n in 1..=10u64 {
        let next = Header { parent_hash: Some(header.hash()), number: n };
        header = seal(next);
        client.insert(header.clone(), BlockBody { transactions: vec![n] });
    }
    let full = FullBlockClient::new(&client);

    let received = fetch_block_range(&full, header.hash(), 11);
    assert_eq!(received.len(), 11);
    assert_eq!(received[0].hash(), header.hash());
    assert_eq!(received[10].hash(), genesis);
    for (i, block) in received.iter().enumerate() {
        assert_eq!(block.header.number, 10 - i as u64);
        assert_eq!(block.body.transactions, vec![10 - i as u64]);
        if i + 1 < received.len() {
            assert_eq!(block.header.header.parent_hash, Some(received[i + 1].hash()));
        }
    }
    assert!(client.bad_messages.borrow().is_empty());
}

#[test]
fn download_never_completes_for_unknown_block() {
    let client = TestFullBlockClient::default();
    client.insert(seal(Header::default()), BlockBody::default());
    let full = FullBlockClient::new(&client);
    let unknown = H256([9u8; 32]);
    let mut fetch = full.get_full_block::<Header, BlockBody>(unknown);
    for _ in 0..20 {
        let turn = fetch.poll(
            || Poll::Ready(client.get_header(unknown)),
            || Poll::Ready(client.get_block_body(unknown)),
        );
        match turn {
            Progress::Continue(reaction) => {
                assert_eq!(reaction.penalize, None);
                assert!(reaction.request.is_some());
            }
            other => panic!("unexpected turn: {:?}", other),
        }
    }
    assert_eq!(fetch.block_number(), None);
}
