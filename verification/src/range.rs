//! Fetching a run of blocks that ends at a given hash and walks down the
//! chain: one headers request, then one bodies request for the hashes of the
//! headers that were accepted.

use crate::order::{is_descending, lemma_sort_desc, sort_desc, sort_descending};
use crate::primitives::{
    H256, HeadersDirection, HeadersRequest, PeerId, PeerRequestResult, Poll, Progress, Reaction,
    SealedBlock, SealedHeader, WithPeerId,
};
use vstd::prelude::*;

verus! {

/// What one of the two requests of a range fetch resolved to.
#[derive(Debug)]
pub enum RangeResponseResult<H, B> {
    /// The headers request resolved.
    Header(PeerRequestResult<Vec<SealedHeader<H>>>),
    /// The bodies request resolved.
    Body(PeerRequestResult<Vec<B>>),
}

/// A request that a range fetch asks its caller to send.
#[derive(Clone, Debug, PartialEq, Eq)]
pub enum RangeRequest {
    /// A run of headers.
    Headers(HeadersRequest),
    /// The bodies of the blocks with these hashes, in this order.
    Bodies(Vec<H256>),
}

/// A `RangeRequest` as a plain value.
pub enum RangeRequestView {
    /// A run of headers.
    Headers(HeadersRequest),
    /// The bodies of the blocks with these hashes, in this order.
    Bodies(Seq<H256>),
}

impl View for RangeRequest {
    type V = RangeRequestView;

    open spec fn view(&self) -> RangeRequestView {
        match *self {
            RangeRequest::Headers(r) => RangeRequestView::Headers(r),
            RangeRequest::Bodies(hashes) => RangeRequestView::Bodies(hashes@),
        }
    }
}

/// The two request slots of a range fetch. A slot holds what its request in
/// flight asks for, or nothing.
#[derive(Clone, Debug, PartialEq, Eq)]
pub struct FullBlockRangeRequest {
    /// The headers request in flight.
    pub headers: Option<HeadersRequest>,
    /// The hashes that the bodies request in flight asks for.
    pub bodies: Option<Vec<H256>>,
}

/// What a turn of a range fetch may report, given which requests are in
/// flight and how they answer when polled: the headers request is asked
/// first, the bodies request only if the headers request is not in flight or
/// is still pending, and a slot that is empty is not asked at all.
pub open spec fn range_yields<H, B, FH, FB>(
    headers_in_flight: bool,
    bodies_in_flight: bool,
    poll_headers: FH,
    poll_bodies: FB,
    out: Poll<RangeResponseResult<H, B>>,
) -> bool where
    FH: FnOnce() -> Poll<PeerRequestResult<Vec<SealedHeader<H>>>>,
    FB: FnOnce() -> Poll<PeerRequestResult<Vec<B>>>,
 {
    match out {
        Poll::Ready(RangeResponseResult::Header(res)) => {
            &&& headers_in_flight
            &&& call_ensures(poll_headers, (), Poll::Ready(res))
        },
        Poll::Ready(RangeResponseResult::Body(res)) => {
            &&& bodies_in_flight
            &&& headers_in_flight ==> call_ensures(poll_headers, (), Poll::Pending)
            &&& call_ensures(poll_bodies, (), Poll::Ready(res))
        },
        Poll::Pending => {
            &&& headers_in_flight ==> call_ensures(poll_headers, (), Poll::Pending)
            &&& bodies_in_flight ==> call_ensures(poll_bodies, (), Poll::Pending)
        },
    }
}

impl FullBlockRangeRequest {
    /// The slots after a turn that reported `out`: the slot whose request
    /// resolved is empty, the other one is as it was.
    pub open spec fn after<H, B>(self, out: Poll<RangeResponseResult<H, B>>) -> Self {
        match out {
            Poll::Ready(RangeResponseResult::Header(_)) => FullBlockRangeRequest {
                headers: None,
                bodies: self.bodies,
            },
            Poll::Ready(RangeResponseResult::Body(_)) => FullBlockRangeRequest {
                headers: self.headers,
                bodies: None,
            },
            Poll::Pending => self,
        }
    }

    /// Polls the requests in flight, the headers request first, and reports
    /// the first one that has resolved. Its slot is emptied. The other request
    /// is left alone, to be reported by a later turn.
    pub fn poll<H, B, FH, FB>(&mut self, poll_headers: FH, poll_bodies: FB) -> (out: Poll<
        RangeResponseResult<H, B>,
    >) where
        FH: FnOnce() -> Poll<PeerRequestResult<Vec<SealedHeader<H>>>>,
        FB: FnOnce() -> Poll<PeerRequestResult<Vec<B>>>,

        requires
            call_requires(poll_headers, ()),
            call_requires(poll_bodies, ()),
        ensures
            range_yields(
                old(self).headers is Some,
                old(self).bodies is Some,
                poll_headers,
                poll_bodies,
                out,
            ),
            *final(self) == old(self).after(out),
    {
        if self.headers.is_some() {
            if let Poll::Ready(res) = poll_headers() {
                self.headers = None;
                return Poll::Ready(RangeResponseResult::Header(res));
            }
        }
        if self.bodies.is_some() {
            if let Poll::Ready(res) = poll_bodies() {
                self.bodies = None;
                return Poll::Ready(RangeResponseResult::Body(res));
            }
        }
        Poll::Pending
    }
}

/// The hashes of a run of headers, in the order of the run.
pub open spec fn hashes_of<H>(headers: Seq<SealedHeader<H>>) -> Seq<H256> {
    Seq::new(headers.len(), |i: int| headers[i].hash)
}

/// Header `i` paired with body `i`, as far as both runs reach.
pub open spec fn zip_blocks<H, B>(headers: Seq<SealedHeader<H>>, bodies: Seq<B>) -> Seq<
    SealedBlock<H, B>,
> {
    Seq::new(
        if headers.len() <= bodies.len() {
            headers.len()
        } else {
            bodies.len()
        },
        |i: int| SealedBlock { header: headers[i], body: bodies[i] },
    )
}

/// The state of a range fetch as a plain value.
pub struct RangeFetch<H, B> {
    /// The hash of the highest block of the range.
    pub hash: H256,
    /// How many blocks the range has.
    pub count: u64,
    /// The headers request in flight.
    pub request_headers: Option<HeadersRequest>,
    /// The hashes that the bodies request in flight asks for.
    pub request_bodies: Option<Seq<H256>>,
    /// The headers, ordered and validated, once they have arrived.
    pub headers: Option<Seq<SealedHeader<H>>>,
    /// The bodies, once the right number of them has arrived.
    pub bodies: Option<Seq<B>>,
}

impl<H, B> RangeFetch<H, B> {
    /// The one headers request the fetch ever sends: `count` headers from
    /// `hash` downwards.
    pub open spec fn headers_request(self) -> HeadersRequest {
        HeadersRequest { start: self.hash, limit: self.count, direction: HeadersDirection::Falling }
    }

    /// The state a fetch starts in. The headers request is in flight. For a
    /// range of one block the bodies request is in flight too, since the one
    /// hash it needs is known; for a longer range it has to wait for the
    /// headers.
    pub open spec fn start(hash: H256, count: u64) -> Self {
        RangeFetch {
            hash,
            count,
            request_headers: Some(
                HeadersRequest { start: hash, limit: count, direction: HeadersDirection::Falling },
            ),
            request_bodies: if count == 1 {
                Some(seq![hash])
            } else {
                None
            },
            headers: None,
            bodies: None,
        }
    }

    /// The fetch has yielded its blocks: nothing is in flight, nothing is
    /// held.
    pub open spec fn finished(self) -> bool {
        &&& self.request_headers is None
        &&& self.request_bodies is None
        &&& self.headers is None
        &&& self.bodies is None
    }

    /// A bodies request is in flight or has been answered.
    pub open spec fn has_bodies_request_started(self) -> bool {
        self.request_bodies is Some || self.bodies is Some
    }

    /// The hashes of the headers that are held.
    pub open spec fn range_block_hashes(self) -> Option<Seq<H256>> {
        match self.headers {
            Some(headers) => Some(hashes_of(headers)),
            None => None,
        }
    }

    /// The hashes a bodies request asks for: those of the headers that are
    /// held or, while a range of one block waits for its header, the hash of
    /// the range. A longer range has no such list before its headers are
    /// held.
    pub open spec fn bodies_hashes(self) -> Option<Seq<H256>> {
        match self.headers {
            Some(headers) => Some(hashes_of(headers)),
            None => if self.count == 1 {
                Some(seq![self.hash])
            } else {
                None
            },
        }
    }

    /// What holds of every state a fetch can be in.
    ///
    /// The headers request in flight is the fetch's own. Headers that are held
    /// are `count` in number, never rise in block number, and start with the
    /// header of the fetch's hash. Bodies that are held are `count` in number.
    /// A bodies request in flight asks for the hashes of the validated list,
    /// and there are neither such a request nor bodies before that list
    /// exists. Each half is in flight or held, never both; the headers half is
    /// never neither until the blocks have been yielded, and the bodies half
    /// only while it waits for the headers.
    pub open spec fn inv(self) -> bool {
        &&& self.request_headers matches Some(r) ==> r == self.headers_request()
        &&& self.headers matches Some(headers) ==> {
            &&& headers.len() == self.count
            &&& headers.len() > 0
            &&& is_descending(headers)
            &&& headers[0].hash == self.hash
        }
        &&& self.bodies matches Some(bodies) ==> bodies.len() == self.count
        &&& self.request_bodies matches Some(hashes) ==> self.bodies_hashes() == Some(hashes)
        &&& self.bodies is Some ==> self.bodies_hashes() is Some
        &&& self.finished() || {
            &&& (self.request_headers is Some) != (self.headers is Some)
            &&& !(self.request_bodies is Some && self.bodies is Some)
            &&& self.bodies_hashes() is Some ==> self.has_bodies_request_started()
        }
    }

    /// The headers that `res` delivers, ordered, if they pass validation:
    /// there are `count` of them, at least one, and the one with the highest
    /// block number has the fetch's hash.
    pub open spec fn accepted_headers(self, res: PeerRequestResult<Vec<SealedHeader<H>>>) -> Option<
        Seq<SealedHeader<H>>,
    > {
        match res {
            Ok(WithPeerId(_, headers)) => if headers@.len() > 0 && headers@.len() == self.count
                && sort_desc(headers@)[0].hash == self.hash {
                Some(sort_desc(headers@))
            } else {
                None
            },
            Err(_) => None,
        }
    }

    /// The responder to penalize for `res`: the one whose headers did not
    /// pass validation.
    pub open spec fn headers_offender(
        self,
        res: PeerRequestResult<Vec<SealedHeader<H>>>,
    ) -> Option<PeerId> {
        match res {
            Ok(WithPeerId(peer, _)) => if self.accepted_headers(res) is None {
                Some(peer)
            } else {
                None
            },
            Err(_) => None,
        }
    }

    /// The state after the headers request resolved to `res`. Headers that
    /// pass validation are kept, and the bodies request for their hashes goes
    /// in flight unless one has been started already. Otherwise, unless
    /// headers are held already, the headers request is in flight again.
    pub open spec fn handle_headers(self, res: PeerRequestResult<Vec<SealedHeader<H>>>) -> Self {
        match self.accepted_headers(res) {
            Some(headers) => RangeFetch {
                hash: self.hash,
                count: self.count,
                request_headers: None,
                request_bodies: if self.has_bodies_request_started() {
                    self.request_bodies
                } else {
                    Some(hashes_of(headers))
                },
                headers: Some(headers),
                bodies: self.bodies,
            },
            None => RangeFetch {
                hash: self.hash,
                count: self.count,
                request_headers: if self.headers is None {
                    Some(self.headers_request())
                } else {
                    None
                },
                request_bodies: self.request_bodies,
                headers: self.headers,
                bodies: self.bodies,
            },
        }
    }

    /// The request to send after the headers request resolved to `res`: the
    /// bodies request that went in flight, or the headers request again.
    pub open spec fn headers_next_request(
        self,
        res: PeerRequestResult<Vec<SealedHeader<H>>>,
    ) -> Option<RangeRequestView> {
        match self.accepted_headers(res) {
            Some(headers) => if self.has_bodies_request_started() {
                None
            } else {
                Some(RangeRequestView::Bodies(hashes_of(headers)))
            },
            None => if self.headers is None {
                Some(RangeRequestView::Headers(self.headers_request()))
            } else {
                None
            },
        }
    }

    /// The bodies that `res` delivers, if there are `count` of them.
    pub open spec fn accepted_bodies(self, res: PeerRequestResult<Vec<B>>) -> Option<Seq<B>> {
        match res {
            Ok(WithPeerId(_, bodies)) => if bodies@.len() == self.count {
                Some(bodies@)
            } else {
                None
            },
            Err(_) => None,
        }
    }

    /// The responder to penalize for `res`: the one that sent another number
    /// of bodies than was asked for.
    pub open spec fn bodies_offender(self, res: PeerRequestResult<Vec<B>>) -> Option<PeerId> {
        match res {
            Ok(WithPeerId(peer, _)) => if self.accepted_bodies(res) is None {
                Some(peer)
            } else {
                None
            },
            Err(_) => None,
        }
    }

    /// The state after the bodies request resolved to `res`. The right number
    /// of bodies is kept. Otherwise, unless bodies are held already, the
    /// bodies request is in flight again, for the hashes of the validated
    /// list; the headers are not requested anew.
    pub open spec fn handle_bodies(self, res: PeerRequestResult<Vec<B>>) -> Self {
        let bodies = match self.accepted_bodies(res) {
            Some(bodies) => Some(bodies),
            None => self.bodies,
        };
        RangeFetch {
            hash: self.hash,
            count: self.count,
            request_headers: self.request_headers,
            request_bodies: if bodies is None {
                self.bodies_hashes()
            } else {
                None
            },
            headers: self.headers,
            bodies,
        }
    }

    /// The state after `res` arrived. A response to a request that is not in
    /// flight changes nothing.
    pub open spec fn on_response(self, res: RangeResponseResult<H, B>) -> Self {
        match res {
            RangeResponseResult::Header(r) => if self.request_headers is Some {
                self.handle_headers(r)
            } else {
                self
            },
            RangeResponseResult::Body(r) => if self.request_bodies is Some {
                self.handle_bodies(r)
            } else {
                self
            },
        }
    }

    /// What the caller has to do after `res` arrived: penalize the responder
    /// of a response that did not pass validation, and send the request that
    /// has gone in flight.
    pub open spec fn reaction(self, res: RangeResponseResult<H, B>) -> Reaction<RangeRequestView> {
        match res {
            RangeResponseResult::Header(r) => if self.request_headers is Some {
                Reaction {
                    penalize: self.headers_offender(r),
                    request: self.headers_next_request(r),
                }
            } else {
                Reaction { penalize: None, request: None }
            },
            RangeResponseResult::Body(r) => if self.request_bodies is Some {
                Reaction {
                    penalize: self.bodies_offender(r),
                    request: match self.handle_bodies(r).request_bodies {
                        Some(hashes) => Some(RangeRequestView::Bodies(hashes)),
                        None => None,
                    },
                }
            } else {
                Reaction { penalize: None, request: None }
            },
        }
    }

    /// The blocks, once both the headers and the bodies are held: header `i`
    /// with body `i`.
    pub open spec fn blocks(self) -> Option<Seq<SealedBlock<H, B>>> {
        match (self.headers, self.bodies) {
            (Some(headers), Some(bodies)) => Some(zip_blocks(headers, bodies)),
            _ => None,
        }
    }

    /// The state after the blocks were taken, if there were any to take.
    pub open spec fn taken(self) -> Self {
        if self.blocks() is Some {
            RangeFetch {
                hash: self.hash,
                count: self.count,
                request_headers: self.request_headers,
                request_bodies: self.request_bodies,
                headers: None,
                bodies: None,
            }
        } else {
            self
        }
    }

    /// One turn: the state it leaves and what it reports, given what polling
    /// the requests in flight came to.
    pub open spec fn turn(self, polled: Poll<RangeResponseResult<H, B>>) -> (
        Self,
        Progress<RangeRequestView, Seq<SealedBlock<H, B>>>,
    ) {
        match polled {
            Poll::Pending => (self, Progress::Pending),
            Poll::Ready(res) => {
                let next = self.on_response(res);
                match next.blocks() {
                    Some(blocks) => (next.taken(), Progress::Ready(blocks)),
                    None => (next, Progress::Continue(self.reaction(res))),
                }
            },
        }
    }
}

/// The hashes of `headers`, in order.
pub fn collect_hashes<H>(headers: &Vec<SealedHeader<H>>) -> (hashes: Vec<H256>)
    ensures
        hashes@ == hashes_of(headers@),
{
    let mut hashes: Vec<H256> = Vec::new();
    let mut i: usize = 0;
    while i < headers.len()
        invariant
            i <= headers.len(),
            hashes@ == hashes_of(headers@.subrange(0, i as int)),
        decreases headers.len() - i,
    {
        hashes.push(headers[i].hash);
        assert(hashes@ =~= hashes_of(headers@.subrange(0, i + 1)));
        i += 1;
    }
    assert(headers@.subrange(0, i as int) =~= headers@);
    hashes
}

/// Pairs header `i` with body `i`, as far as both runs reach.
pub fn assemble_blocks<H, B>(headers: Vec<SealedHeader<H>>, bodies: Vec<B>) -> (blocks: Vec<
    SealedBlock<H, B>,
>)
    ensures
        blocks@ == zip_blocks(headers@, bodies@),
{
    let ghost hs = headers@;
    let ghost bs = bodies@;
    let mut headers = headers;
    let mut bodies = bodies;
    if headers.len() < bodies.len() {
        bodies.truncate(headers.len());
    } else {
        headers.truncate(bodies.len());
    }
    let ghost n = headers.len() as int;
    let mut stack: Vec<SealedBlock<H, B>> = Vec::new();
    while headers.len() > 0
        invariant
            n <= hs.len(),
            n <= bs.len(),
            headers.len() == bodies.len(),
            headers.len() <= n,
            headers@ == hs.subrange(0, headers.len() as int),
            bodies@ == bs.subrange(0, headers.len() as int),
            stack.len() == n - headers.len(),
            forall|j: int|
                0 <= j < stack.len() ==> stack@[j] == (SealedBlock {
                    header: hs[n - 1 - j],
                    body: bs[n - 1 - j],
                }),
        decreases headers.len(),
    {
        let header = headers.pop().unwrap();
        let body = bodies.pop().unwrap();
        stack.push(SealedBlock::new(header, body));
    }
    let mut blocks: Vec<SealedBlock<H, B>> = Vec::new();
    while stack.len() > 0
        invariant
            n <= hs.len(),
            n <= bs.len(),
            stack.len() <= n,
            blocks.len() == n - stack.len(),
            forall|j: int|
                0 <= j < stack.len() ==> stack@[j] == (SealedBlock {
                    header: hs[n - 1 - j],
                    body: bs[n - 1 - j],
                }),
            forall|j: int|
                0 <= j < blocks.len() ==> blocks@[j] == (SealedBlock { header: hs[j], body: bs[j] }),
        decreases stack.len(),
    {
        let block = stack.pop().unwrap();
        blocks.push(block);
    }
    assert(blocks@ =~= zip_blocks(hs, bs));
    blocks
}

/// A fetch of a range of full blocks.
///
/// The headers of the range are requested first, from the given hash
/// downwards. Once they have arrived and passed validation, the bodies for
/// their hashes are requested. When both have arrived, the fetch yields the
/// blocks, highest first. The fetch sends nothing itself: it says which
/// requests are in flight and how to react to each response, and its caller
/// does the sending.
#[must_use]
#[derive(Debug)]
pub struct FetchFullBlockRangeFuture<H, B> {
    hash: H256,
    count: u64,
    request: FullBlockRangeRequest,
    headers: Option<Vec<SealedHeader<H>>>,
    bodies: Option<Vec<B>>,
}

impl<H, B> View for FetchFullBlockRangeFuture<H, B> {
    type V = RangeFetch<H, B>;

    closed spec fn view(&self) -> RangeFetch<H, B> {
        RangeFetch {
            hash: self.hash,
            count: self.count,
            request_headers: self.request.headers,
            request_bodies: match self.request.bodies {
                Some(hashes) => Some(hashes@),
                None => None,
            },
            headers: match self.headers {
                Some(headers) => Some(headers@),
                None => None,
            },
            bodies: match self.bodies {
                Some(bodies) => Some(bodies@),
                None => None,
            },
        }
    }
}

impl<H, B> FetchFullBlockRangeFuture<H, B> {
    /// The fetch is in a state that a fetch can be in.
    pub open spec fn wf(&self) -> bool {
        self@.inv()
    }

    /// Starts a fetch of `count` blocks from the block with the given hash
    /// downwards. The headers request is in flight; the bodies request is in
    /// flight too if `count` is 1.
    ///
    /// A fetch of no blocks never completes: no run of headers is both empty
    /// and not empty.
    pub fn new(hash: H256, count: u64) -> (fetch: Self)
        ensures
            fetch.wf(),
            fetch@ == RangeFetch::<H, B>::start(hash, count),
    {
        let bodies = if count == 1 {
            let mut hashes: Vec<H256> = Vec::new();
            hashes.push(hash);
            assert(hashes@ =~= seq![hash]);
            Some(hashes)
        } else {
            None
        };
        FetchFullBlockRangeFuture {
            hash,
            count,
            request: FullBlockRangeRequest {
                headers: Some(
                    HeadersRequest { start: hash, limit: count, direction: HeadersDirection::Falling },
                ),
                bodies,
            },
            headers: None,
            bodies: None,
        }
    }

    /// The hash of the highest block of the range.
    pub fn hash(&self) -> (hash: &H256)
        ensures
            *hash == self@.hash,
    {
        &self.hash
    }

    /// How many blocks the range has.
    pub fn count(&self) -> (count: u64)
        ensures
            count == self@.count,
    {
        self.count
    }

    /// The requests that are in flight.
    pub fn request(&self) -> (request: &FullBlockRangeRequest)
        ensures
            request.headers == self@.request_headers,
            self@.request_bodies == match request.bodies {
                Some(hashes) => Some(hashes@),
                None => None,
            },
    {
        &self.request
    }

    /// The block hashes of the range, if its headers have arrived.
    pub fn range_block_hashes(&self) -> (hashes: Option<Vec<H256>>)
        ensures
            self@.range_block_hashes() == match hashes {
                Some(hashes) => Some(hashes@),
                None => None,
            },
    {
        match &self.headers {
            Some(headers) => Some(collect_hashes(headers)),
            None => None,
        }
    }

    /// Whether a bodies request is in flight or has been answered.
    pub fn has_bodies_request_started(&self) -> (started: bool)
        ensures
            started == self@.has_bodies_request_started(),
    {
        self.request.bodies.is_some() || self.bodies.is_some()
    }

    /// The hashes to ask bodies for, if the validated list exists.
    fn bodies_hashes(&self) -> (hashes: Option<Vec<H256>>)
        ensures
            self@.bodies_hashes() == match hashes {
                Some(hashes) => Some(hashes@),
                None => None,
            },
    {
        match &self.headers {
            Some(headers) => Some(collect_hashes(headers)),
            None => {
                if self.count == 1 {
                    let mut hashes: Vec<H256> = Vec::new();
                    hashes.push(self.hash);
                    assert(hashes@ =~= seq![self.hash]);
                    Some(hashes)
                } else {
                    None
                }
            },
        }
    }

    /// The headers request of this fetch.
    fn headers_request(&self) -> (request: HeadersRequest)
        ensures
            request == self@.headers_request(),
    {
        HeadersRequest { start: self.hash, limit: self.count, direction: HeadersDirection::Falling }
    }

    /// Handles the resolution of the headers request, whose slot is empty by
    /// now.
    fn handle_headers(&mut self, res: PeerRequestResult<Vec<SealedHeader<H>>>) -> (out: Reaction<
        RangeRequest,
    >)
        ensures
            final(self)@ == old(self)@.handle_headers(res),
            out.penalize == old(self)@.headers_offender(res),
            out@.request == old(self)@.headers_next_request(res),
    {
        let mut penalize: Option<PeerId> = None;
        let mut request: Option<RangeRequest> = None;
        match res {
            Ok(envelope) => {
                let (peer, headers) = envelope.split();
                if headers.len() == 0 || headers.len() as u64 != self.count {
                    penalize = Some(peer);
                } else {
                    let sorted = sort_descending(headers);
                    proof {
                        lemma_sort_desc(headers@);
                    }
                    if sorted[0].hash == self.hash {
                        if !self.has_bodies_request_started() {
                            self.request.bodies = Some(collect_hashes(&sorted));
                            request = Some(RangeRequest::Bodies(collect_hashes(&sorted)));
                        }
                        self.headers = Some(sorted);
                    } else {
                        penalize = Some(peer);
                    }
                }
            },
            Err(_) => {},
        }
        if self.headers.is_none() {
            let again = self.headers_request();
            self.request.headers = Some(again);
            request = Some(RangeRequest::Headers(again));
        } else {
            self.request.headers = None;
        }
        Reaction { penalize, request }
    }

    /// Handles the resolution of the bodies request, whose slot is empty by
    /// now.
    fn handle_bodies(&mut self, res: PeerRequestResult<Vec<B>>) -> (out: Reaction<RangeRequest>)
        ensures
            final(self)@ == old(self)@.handle_bodies(res),
            out.penalize == old(self)@.bodies_offender(res),
            out@.request == match final(self)@.request_bodies {
                Some(hashes) => Some(RangeRequestView::Bodies(hashes)),
                None => None,
            },
    {
        let mut penalize: Option<PeerId> = None;
        match res {
            Ok(envelope) => {
                let (peer, bodies) = envelope.split();
                if bodies.len() as u64 != self.count {
                    penalize = Some(peer);
                } else {
                    self.bodies = Some(bodies);
                }
            },
            Err(_) => {},
        }
        let mut request: Option<RangeRequest> = None;
        if self.bodies.is_none() {
            self.request.bodies = self.bodies_hashes();
            if let Some(hashes) = self.bodies_hashes() {
                request = Some(RangeRequest::Bodies(hashes));
            }
        } else {
            self.request.bodies = None;
        }
        Reaction { penalize, request }
    }

    /// Takes in the response to a request in flight and says how to react.
    ///
    /// Headers are kept only if there are `count` of them and, once ordered
    /// by descending block number, the first has the hash of the fetch; then
    /// the bodies request for their hashes goes in flight, unless it was
    /// started before. Bodies are kept only if there are `count` of them. The
    /// responder of anything else is penalized and the request is sent again:
    /// the headers request unchanged, the bodies request for the hashes of the
    /// validated list. A request that failed is sent again with no penalty. A
    /// response to a request that is not in flight is dropped.
    pub fn on_response(&mut self, res: RangeResponseResult<H, B>) -> (out: Reaction<RangeRequest>)
        requires
            old(self).wf(),
        ensures
            final(self).wf(),
            final(self)@ == old(self)@.on_response(res),
            out@ == old(self)@.reaction(res),
    {
        match res {
            RangeResponseResult::Header(r) => {
                if self.request.headers.is_none() {
                    return Reaction { penalize: None, request: None };
                }
                proof {
                    lemma_handle_headers_inv(self@, r);
                }
                self.handle_headers(r)
            },
            RangeResponseResult::Body(r) => {
                if self.request.bodies.is_none() {
                    return Reaction { penalize: None, request: None };
                }
                self.handle_bodies(r)
            },
        }
    }

    /// Yields the blocks if both halves have arrived, and leaves the fetch
    /// finished. Otherwise nothing changes.
    pub fn take_blocks(&mut self) -> (blocks: Option<Vec<SealedBlock<H, B>>>)
        requires
            old(self).wf(),
        ensures
            final(self).wf(),
            final(self)@ == old(self)@.taken(),
            old(self)@.blocks() == match blocks {
                Some(blocks) => Some(blocks@),
                None => None,
            },
    {
        if self.headers.is_none() || self.bodies.is_none() {
            return None;
        }
        let headers = self.headers.take().unwrap();
        let bodies = self.bodies.take().unwrap();
        Some(assemble_blocks(headers, bodies))
    }

    /// Takes one turn: polls the requests in flight, handles the first
    /// response that is ready, and yields the blocks if that completed them.
    ///
    /// The caller keeps taking turns until one reports `Pending` or `Ready`,
    /// carrying out each reaction in between, so that every response that is
    /// ready is handled before the fetch suspends.
    pub fn poll<FH, FB>(&mut self, poll_headers: FH, poll_bodies: FB) -> (out: Progress<
        RangeRequest,
        Vec<SealedBlock<H, B>>,
    >) where
        FH: FnOnce() -> Poll<PeerRequestResult<Vec<SealedHeader<H>>>>,
        FB: FnOnce() -> Poll<PeerRequestResult<Vec<B>>>,

        requires
            old(self).wf(),
            call_requires(poll_headers, ()),
            call_requires(poll_bodies, ()),
        ensures
            final(self).wf(),
            exists|polled: Poll<RangeResponseResult<H, B>>|
                {
                    &&& #[trigger] range_yields(
                        old(self)@.request_headers is Some,
                        old(self)@.request_bodies is Some,
                        poll_headers,
                        poll_bodies,
                        polled,
                    )
                    &&& final(self)@ == old(self)@.turn(polled).0
                    &&& out@ == old(self)@.turn(polled).1
                },
    {
        let polled = self.request.poll(poll_headers, poll_bodies);
        let ghost witness = polled;
        match polled {
            Poll::Pending => Progress::Pending,
            Poll::Ready(res) => {
                let reaction = match res {
                    RangeResponseResult::Header(r) => {
                        proof {
                            lemma_handle_headers_inv(old(self)@, r);
                        }
                        self.handle_headers(r)
                    },
                    RangeResponseResult::Body(r) => self.handle_bodies(r),
                };
                let out = match self.take_blocks() {
                    Some(blocks) => Progress::Ready(blocks),
                    None => Progress::Continue(reaction),
                };
                assert(range_yields(
                    old(self)@.request_headers is Some,
                    old(self)@.request_bodies is Some,
                    poll_headers,
                    poll_bodies,
                    witness,
                ));
                out
            },
        }
    }
}

/// Handling the resolution of the headers request in flight leads from a
/// state a fetch can be in to another such state.
pub proof fn lemma_handle_headers_inv<H, B>(
    s: RangeFetch<H, B>,
    res: PeerRequestResult<Vec<SealedHeader<H>>>,
)
    requires
        s.inv(),
        s.request_headers is Some,
    ensures
        s.handle_headers(res).inv(),
{
    match s.accepted_headers(res) {
        Some(headers) => {
            let sent = res->Ok_0.1@;
            lemma_sort_desc(sent);
            if s.count == 1 {
                assert(hashes_of(headers) =~= seq![s.hash]);
            }
        },
        None => {},
    }
}

} // verus!
