//! Fetching one block by its hash: a header request and a body request run
//! side by side, every header is checked against the hash, and whatever
//! fails is requested again.

use crate::primitives::{
    H256, PeerId, PeerRequestResult, Poll, Progress, Reaction, SealedBlock, SealedHeader,
    WithPeerId,
};
use vstd::prelude::*;

verus! {

/// What one of the two requests of a single-block fetch resolved to.
#[derive(Debug)]
pub enum ResponseResult<H, B> {
    /// The header request resolved.
    Header(PeerRequestResult<Option<SealedHeader<H>>>),
    /// The body request resolved.
    Body(PeerRequestResult<Option<B>>),
}

/// A request that a single-block fetch asks its caller to send.
#[derive(Clone, Copy, Debug, PartialEq, Eq)]
pub enum BlockRequest {
    /// The header with this hash.
    Header(H256),
    /// The body of the block with this hash.
    Body(H256),
}

/// The two request slots of a single-block fetch. A slot holds the hash that
/// its request in flight asks for, or nothing.
#[derive(Clone, Copy, Debug, PartialEq, Eq)]
pub struct FullBlockRequest {
    /// The header request in flight.
    pub header: Option<H256>,
    /// The body request in flight.
    pub body: Option<H256>,
}

impl FullBlockRequest {
    /// What a turn may report, given how the requests in flight answer when
    /// polled: the header request is asked first, the body request only if the
    /// header request is not in flight or is still pending, and a slot that is
    /// empty is not asked at all.
    pub open spec fn yields<H, B, FH, FB>(
        self,
        poll_header: FH,
        poll_body: FB,
        out: Poll<ResponseResult<H, B>>,
    ) -> bool where
        FH: FnOnce() -> Poll<PeerRequestResult<Option<SealedHeader<H>>>>,
        FB: FnOnce() -> Poll<PeerRequestResult<Option<B>>>,
     {
        match out {
            Poll::Ready(ResponseResult::Header(res)) => {
                &&& self.header is Some
                &&& call_ensures(poll_header, (), Poll::Ready(res))
            },
            Poll::Ready(ResponseResult::Body(res)) => {
                &&& self.body is Some
                &&& self.header is Some ==> call_ensures(poll_header, (), Poll::Pending)
                &&& call_ensures(poll_body, (), Poll::Ready(res))
            },
            Poll::Pending => {
                &&& self.header is Some ==> call_ensures(poll_header, (), Poll::Pending)
                &&& self.body is Some ==> call_ensures(poll_body, (), Poll::Pending)
            },
        }
    }

    /// The slots after a turn that reported `out`: the slot whose request
    /// resolved is empty, the other one is as it was.
    pub open spec fn after<H, B>(self, out: Poll<ResponseResult<H, B>>) -> Self {
        match out {
            Poll::Ready(ResponseResult::Header(_)) => FullBlockRequest {
                header: None,
                body: self.body,
            },
            Poll::Ready(ResponseResult::Body(_)) => FullBlockRequest {
                header: self.header,
                body: None,
            },
            Poll::Pending => self,
        }
    }

    /// Polls the requests in flight, the header request first, and reports the
    /// first one that has resolved. Its slot is emptied. The other request is
    /// left alone, to be reported by a later turn.
    pub fn poll<H, B, FH, FB>(&mut self, poll_header: FH, poll_body: FB) -> (out: Poll<
        ResponseResult<H, B>,
    >) where
        FH: FnOnce() -> Poll<PeerRequestResult<Option<SealedHeader<H>>>>,
        FB: FnOnce() -> Poll<PeerRequestResult<Option<B>>>,

        requires
            call_requires(poll_header, ()),
            call_requires(poll_body, ()),
        ensures
            old(self).yields(poll_header, poll_body, out),
            *final(self) == old(self).after(out),
    {
        if self.header.is_some() {
            if let Poll::Ready(res) = poll_header() {
                self.header = None;
                return Poll::Ready(ResponseResult::Header(res));
            }
        }
        if self.body.is_some() {
            if let Poll::Ready(res) = poll_body() {
                self.body = None;
                return Poll::Ready(ResponseResult::Body(res));
            }
        }
        Poll::Pending
    }
}

/// The state of a single-block fetch as a plain value.
pub struct SingleFetch<H, B> {
    /// The hash of the block that is being fetched.
    pub hash: H256,
    /// The requests in flight.
    pub request: FullBlockRequest,
    /// The header, once one with the right hash has arrived.
    pub header: Option<SealedHeader<H>>,
    /// The body, once one has arrived.
    pub body: Option<B>,
}

impl<H, B> SingleFetch<H, B> {
    /// The state a fetch starts in: both requests are in flight.
    pub open spec fn start(hash: H256) -> Self {
        SingleFetch {
            hash,
            request: FullBlockRequest { header: Some(hash), body: Some(hash) },
            header: None,
            body: None,
        }
    }

    /// The fetch has yielded its block: nothing is in flight, nothing is held.
    pub open spec fn finished(self) -> bool {
        &&& self.request.header is None
        &&& self.request.body is None
        &&& self.header is None
        &&& self.body is None
    }

    /// What holds of every state a fetch can be in. Requests in flight ask for
    /// the fetch's hash, a header that is held has that hash, and each half is
    /// either in flight or held, never both and, until the block has been
    /// yielded, never neither.
    pub open spec fn inv(self) -> bool {
        &&& self.request.header matches Some(h) ==> h == self.hash
        &&& self.request.body matches Some(h) ==> h == self.hash
        &&& self.header matches Some(h) ==> h.hash == self.hash
        &&& self.finished() || {
            &&& (self.request.header is Some) != (self.header is Some)
            &&& (self.request.body is Some) != (self.body is Some)
        }
    }

    /// The header that `res` delivers, if it delivers one with the right hash.
    pub open spec fn accepted_header(
        self,
        res: PeerRequestResult<Option<SealedHeader<H>>>,
    ) -> Option<SealedHeader<H>> {
        match res {
            Ok(WithPeerId(_, Some(h))) => if h.hash == self.hash {
                Some(h)
            } else {
                None
            },
            _ => None,
        }
    }

    /// The responder to penalize for `res`: the one that sent a header with
    /// another hash than the one asked for.
    pub open spec fn header_offender(
        self,
        res: PeerRequestResult<Option<SealedHeader<H>>>,
    ) -> Option<PeerId> {
        match res {
            Ok(WithPeerId(peer, Some(h))) => if h.hash == self.hash {
                None
            } else {
                Some(peer)
            },
            _ => None,
        }
    }

    /// The state after the header request resolved to `res`. A header with the
    /// right hash is kept. Otherwise, unless a header is held already, the
    /// request is in flight again.
    pub open spec fn handle_header(self, res: PeerRequestResult<Option<SealedHeader<H>>>) -> Self {
        let header = match self.accepted_header(res) {
            Some(h) => Some(h),
            None => self.header,
        };
        SingleFetch {
            hash: self.hash,
            request: FullBlockRequest {
                header: if header is None {
                    Some(self.hash)
                } else {
                    None
                },
                body: self.request.body,
            },
            header,
            body: self.body,
        }
    }

    /// The state after the body request resolved to `res`. Any body that was
    /// delivered is kept: nothing binds a body to its header, so none can be
    /// told from another. Without a body the request is in flight again.
    pub open spec fn handle_body(self, res: PeerRequestResult<Option<B>>) -> Self {
        let body = match res {
            Ok(WithPeerId(_, maybe_body)) => maybe_body,
            Err(_) => self.body,
        };
        SingleFetch {
            hash: self.hash,
            request: FullBlockRequest {
                header: self.request.header,
                body: if body is None {
                    Some(self.hash)
                } else {
                    None
                },
            },
            header: self.header,
            body,
        }
    }

    /// The state after `res` arrived. A response to a request that is not in
    /// flight changes nothing.
    pub open spec fn on_response(self, res: ResponseResult<H, B>) -> Self {
        match res {
            ResponseResult::Header(r) => if self.request.header is Some {
                self.handle_header(r)
            } else {
                self
            },
            ResponseResult::Body(r) => if self.request.body is Some {
                self.handle_body(r)
            } else {
                self
            },
        }
    }

    /// What the caller has to do after `res` arrived: penalize the responder
    /// of a header with the wrong hash, and send again the request that has
    /// gone back in flight.
    pub open spec fn reaction(self, res: ResponseResult<H, B>) -> Reaction<BlockRequest> {
        match res {
            ResponseResult::Header(r) => if self.request.header is Some {
                Reaction {
                    penalize: self.header_offender(r),
                    request: if self.handle_header(r).request.header is Some {
                        Some(BlockRequest::Header(self.hash))
                    } else {
                        None
                    },
                }
            } else {
                Reaction { penalize: None, request: None }
            },
            ResponseResult::Body(r) => if self.request.body is Some {
                Reaction {
                    penalize: None,
                    request: if self.handle_body(r).request.body is Some {
                        Some(BlockRequest::Body(self.hash))
                    } else {
                        None
                    },
                }
            } else {
                Reaction { penalize: None, request: None }
            },
        }
    }

    /// The block, once both the header and the body are held.
    pub open spec fn block(self) -> Option<SealedBlock<H, B>> {
        match (self.header, self.body) {
            (Some(header), Some(body)) => Some(SealedBlock { header, body }),
            _ => None,
        }
    }

    /// The state after the block was taken, if there was one to take.
    pub open spec fn taken(self) -> Self {
        if self.block() is Some {
            SingleFetch { hash: self.hash, request: self.request, header: None, body: None }
        } else {
            self
        }
    }

    /// One turn: the state it leaves and what it reports, given what polling
    /// the requests in flight came to.
    pub open spec fn turn(self, polled: Poll<ResponseResult<H, B>>) -> (
        Self,
        Progress<BlockRequest, SealedBlock<H, B>>,
    ) {
        match polled {
            Poll::Pending => (self, Progress::Pending),
            Poll::Ready(res) => {
                let next = self.on_response(res);
                match next.block() {
                    Some(block) => (next.taken(), Progress::Ready(block)),
                    None => (next, Progress::Continue(self.reaction(res))),
                }
            },
        }
    }
}

/// A fetch of one full block.
///
/// The header and the body of the block with the given hash are requested at
/// the same time. When both have arrived, the fetch yields the block. The
/// fetch sends nothing itself: it says which requests are in flight and how to
/// react to each response, and its caller does the sending.
#[must_use]
#[derive(Debug)]
pub struct FetchFullBlockFuture<H, B> {
    hash: H256,
    request: FullBlockRequest,
    header: Option<SealedHeader<H>>,
    body: Option<B>,
}

impl<H, B> View for FetchFullBlockFuture<H, B> {
    type V = SingleFetch<H, B>;

    closed spec fn view(&self) -> SingleFetch<H, B> {
        SingleFetch {
            hash: self.hash,
            request: self.request,
            header: self.header,
            body: self.body,
        }
    }
}

impl<H, B> FetchFullBlockFuture<H, B> {
    /// The fetch is in a state that a fetch can be in.
    pub open spec fn wf(&self) -> bool {
        self@.inv()
    }

    /// Starts a fetch of the block with the given hash: its header request and
    /// its body request are both in flight.
    pub fn new(hash: H256) -> (fetch: Self)
        ensures
            fetch.wf(),
            fetch@ == SingleFetch::<H, B>::start(hash),
    {
        FetchFullBlockFuture {
            hash,
            request: FullBlockRequest { header: Some(hash), body: Some(hash) },
            header: None,
            body: None,
        }
    }

    /// The hash of the block being requested.
    pub fn hash(&self) -> (hash: &H256)
        ensures
            *hash == self@.hash,
    {
        &self.hash
    }

    /// The block number, once the header has arrived.
    pub fn block_number(&self) -> (number: Option<u64>)
        ensures
            number == match self@.header {
                Some(h) => Some(h.number),
                None => None,
            },
    {
        match &self.header {
            Some(h) => Some(h.number),
            None => None,
        }
    }

    /// The requests that are in flight.
    pub fn request(&self) -> (request: &FullBlockRequest)
        ensures
            *request == self@.request,
    {
        &self.request
    }

    /// Handles the resolution of the header request, whose slot is empty by
    /// now.
    fn handle_header(&mut self, res: PeerRequestResult<Option<SealedHeader<H>>>) -> (out: Reaction<
        BlockRequest,
    >)
        ensures
            final(self)@ == old(self)@.handle_header(res),
            out.penalize == old(self)@.header_offender(res),
            out.request == if final(self)@.request.header is Some {
                Some(BlockRequest::Header(old(self)@.hash))
            } else {
                None
            },
    {
        let mut penalize: Option<PeerId> = None;
        match res {
            Ok(envelope) => {
                let (peer, maybe_header) = envelope.split();
                if let Some(header) = maybe_header {
                    if header.hash() == self.hash {
                        self.header = Some(header);
                    } else {
                        penalize = Some(peer);
                    }
                }
            },
            Err(_) => {},
        }
        let mut request: Option<BlockRequest> = None;
        if self.header.is_none() {
            self.request.header = Some(self.hash);
            request = Some(BlockRequest::Header(self.hash));
        } else {
            self.request.header = None;
        }
        Reaction { penalize, request }
    }

    /// Handles the resolution of the body request, whose slot is empty by now.
    fn handle_body(&mut self, res: PeerRequestResult<Option<B>>) -> (out: Reaction<BlockRequest>)
        ensures
            final(self)@ == old(self)@.handle_body(res),
            out.penalize is None,
            out.request == if final(self)@.request.body is Some {
                Some(BlockRequest::Body(old(self)@.hash))
            } else {
                None
            },
    {
        match res {
            Ok(maybe_body) => {
                self.body = maybe_body.into_data();
            },
            Err(_) => {},
        }
        let mut request: Option<BlockRequest> = None;
        if self.body.is_none() {
            self.request.body = Some(self.hash);
            request = Some(BlockRequest::Body(self.hash));
        } else {
            self.request.body = None;
        }
        Reaction { penalize: None, request }
    }

    /// Takes in the response to a request in flight and says how to react.
    ///
    /// A header is kept only if its hash is the one asked for; the responder
    /// of any other header is penalized and the header is requested again. A
    /// request that failed, or found nothing, is sent again with no penalty. A
    /// response to a request that is not in flight is dropped.
    pub fn on_response(&mut self, res: ResponseResult<H, B>) -> (out: Reaction<BlockRequest>)
        requires
            old(self).wf(),
        ensures
            final(self).wf(),
            final(self)@ == old(self)@.on_response(res),
            out == old(self)@.reaction(res),
    {
        match res {
            ResponseResult::Header(r) => {
                if self.request.header.is_none() {
                    return Reaction { penalize: None, request: None };
                }
                self.handle_header(r)
            },
            ResponseResult::Body(r) => {
                if self.request.body.is_none() {
                    return Reaction { penalize: None, request: None };
                }
                self.handle_body(r)
            },
        }
    }

    /// Yields the block if both halves have arrived, and leaves the fetch
    /// finished. Otherwise nothing changes.
    pub fn take_block(&mut self) -> (block: Option<SealedBlock<H, B>>)
        requires
            old(self).wf(),
        ensures
            final(self).wf(),
            block == old(self)@.block(),
            final(self)@ == old(self)@.taken(),
            block matches Some(b) ==> b.header.hash == old(self)@.hash,
    {
        if self.header.is_none() || self.body.is_none() {
            return None;
        }
        let header = self.header.take().unwrap();
        let body = self.body.take().unwrap();
        Some(SealedBlock::new(header, body))
    }

    /// Takes one turn: polls the requests in flight, handles the first
    /// response that is ready, and yields the block if that completed it.
    ///
    /// The caller keeps taking turns until one reports `Pending` or `Ready`,
    /// carrying out each reaction in between, so that every response that is
    /// ready is handled before the fetch suspends.
    pub fn poll<FH, FB>(&mut self, poll_header: FH, poll_body: FB) -> (out: Progress<
        BlockRequest,
        SealedBlock<H, B>,
    >) where
        FH: FnOnce() -> Poll<PeerRequestResult<Option<SealedHeader<H>>>>,
        FB: FnOnce() -> Poll<PeerRequestResult<Option<B>>>,

        requires
            old(self).wf(),
            call_requires(poll_header, ()),
            call_requires(poll_body, ()),
        ensures
            final(self).wf(),
            exists|polled: Poll<ResponseResult<H, B>>|
                {
                    &&& #[trigger] old(self)@.request.yields(poll_header, poll_body, polled)
                    &&& final(self)@ == old(self)@.turn(polled).0
                    &&& out == old(self)@.turn(polled).1
                },
    {
        let polled = self.request.poll(poll_header, poll_body);
        let ghost witness = polled;
        match polled {
            Poll::Pending => Progress::Pending,
            Poll::Ready(res) => {
                let reaction = match res {
                    ResponseResult::Header(r) => self.handle_header(r),
                    ResponseResult::Body(r) => self.handle_body(r),
                };
                let out = match self.take_block() {
                    Some(block) => Progress::Ready(block),
                    None => Progress::Continue(reaction),
                };
                assert(old(self)@.request.yields(poll_header, poll_body, witness));
                out
            },
        }
    }
}

} // verus!
