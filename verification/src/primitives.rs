//! Plain value types shared by the fetch state machines: hashes, responder
//! identities, response envelopes, sealed headers and assembled blocks.
//!
//! The state machines are generic in the header payload `H` and the body
//! payload `B`. They read only a sealed header's block number and hash, and
//! carry everything else through untouched.

use vstd::prelude::*;

verus! {

/// A 32-byte content identifier: the authoritative identity of a block.
#[derive(Clone, Copy, Debug, Eq, Hash)]
pub struct H256(pub [u8; 32]);

impl PartialEq for H256 {
    fn eq(&self, other: &H256) -> (r: bool) {
        let mut i: usize = 0;
        while i < 32
            invariant
                i <= 32,
                forall|j: int| 0 <= j < i ==> self.0@[j] == other.0@[j],
            decreases 32 - i,
        {
            if self.0[i] != other.0[i] {
                return false;
            }
            i += 1;
        }
        assert(self.0 =~= other.0);
        true
    }
}

impl vstd::std_specs::cmp::PartialEqSpecImpl for H256 {
    open spec fn obeys_eq_spec() -> bool {
        true
    }

    open spec fn eq_spec(&self, other: &H256) -> bool {
        *self == *other
    }
}

/// The identity of the responder that answered a request. It is never
/// inspected here, only handed back when the responder is to be penalized.
#[derive(Clone, Copy, Debug, PartialEq, Eq, Hash)]
pub struct PeerId(pub [u8; 64]);

/// A response envelope: the payload together with the responder it came from.
#[derive(Clone, Debug, PartialEq, Eq)]
pub struct WithPeerId<T>(pub PeerId, pub T);

impl<T> WithPeerId<T> {
    /// Wraps `data` as received from `peer`.
    pub fn new(peer: PeerId, data: T) -> (r: Self)
        ensures
            r == WithPeerId(peer, data),
    {
        WithPeerId(peer, data)
    }

    /// The responder.
    pub fn peer_id(&self) -> (r: PeerId)
        ensures
            r == self.0,
    {
        self.0
    }

    /// The payload.
    pub fn data(&self) -> (r: &T)
        ensures
            *r == self.1,
    {
        &self.1
    }

    /// Drops the responder and keeps the payload.
    pub fn into_data(self) -> (r: T)
        ensures
            r == self.1,
    {
        self.1
    }

    /// Takes the envelope apart.
    pub fn split(self) -> (r: (PeerId, T))
        ensures
            r == (self.0, self.1),
    {
        (self.0, self.1)
    }
}

/// Why a request produced no response at all. Such a failure is not held
/// against any responder.
#[derive(Clone, Copy, Debug, PartialEq, Eq, Structural)]
pub enum RequestError {
    /// The channel to the network task was closed.
    ChannelClosed,
    /// The connection to the responder was dropped.
    ConnectionDropped,
    /// The responder does not support the request.
    UnsupportedCapability,
    /// No response arrived in time.
    Timeout,
    /// The response could not be decoded.
    BadResponse,
}

/// What a request resolves to: an enveloped payload, or a transport failure.
pub type PeerRequestResult<T> = Result<WithPeerId<T>, RequestError>;

/// A header payload together with the two values read from it: its block
/// number and its content-derived hash. The hash is computed locally when the
/// header is sealed; it is never taken from the responder.
#[derive(Clone, Debug, PartialEq, Eq)]
pub struct SealedHeader<H> {
    /// The header as it was received.
    pub header: H,
    /// The block number the header carries.
    pub number: u64,
    /// The hash derived from the header's contents.
    pub hash: H256,
}

impl<H> SealedHeader<H> {
    /// Seals `header` with the given block number and derived hash.
    pub fn new(header: H, number: u64, hash: H256) -> (r: Self)
        ensures
            r == (SealedHeader { header, number, hash }),
    {
        SealedHeader { header, number, hash }
    }

    /// The derived hash.
    pub fn hash(&self) -> (r: H256)
        ensures
            r == self.hash,
    {
        self.hash
    }

    /// Gives the header payload back.
    pub fn unseal(self) -> (r: H)
        ensures
            r == self.header,
    {
        self.header
    }
}

/// One sealed header paired with one body.
#[derive(Clone, Debug, PartialEq, Eq)]
pub struct SealedBlock<H, B> {
    /// The sealed header; its hash identifies the block.
    pub header: SealedHeader<H>,
    /// The body that was fetched for the header's hash.
    pub body: B,
}

impl<H, B> SealedBlock<H, B> {
    /// Pairs a sealed header with a body.
    pub fn new(header: SealedHeader<H>, body: B) -> (r: Self)
        ensures
            r == (SealedBlock { header, body }),
    {
        SealedBlock { header, body }
    }

    /// The hash of the block, which is the hash of its header.
    pub fn hash(&self) -> (r: H256)
        ensures
            r == self.header.hash,
    {
        self.header.hash
    }
}

/// The direction in which a headers request walks the chain.
#[derive(Clone, Copy, Debug, PartialEq, Eq, Structural)]
pub enum HeadersDirection {
    /// Towards higher block numbers.
    Rising,
    /// Towards lower block numbers, following parent links.
    Falling,
}

/// A request for a run of headers.
#[derive(Clone, Copy, Debug, PartialEq, Eq)]
pub struct HeadersRequest {
    /// The hash of the block to start from.
    pub start: H256,
    /// How many headers to return.
    pub limit: u64,
    /// Which way to walk from `start`.
    pub direction: HeadersDirection,
}

/// Whether a pending operation has produced its value yet.
#[derive(Clone, Debug, PartialEq, Eq)]
pub enum Poll<T> {
    /// The value is here.
    Ready(T),
    /// Nothing yet.
    Pending,
}

/// What the caller has to do after a response was handled.
#[derive(Clone, Debug, PartialEq, Eq)]
pub struct Reaction<R> {
    /// The responder to penalize, if the response broke a rule.
    pub penalize: Option<PeerId>,
    /// The request to send next, if one is due.
    pub request: Option<R>,
}

impl<R: View> View for Reaction<R> {
    type V = Reaction<R::V>;

    open spec fn view(&self) -> Reaction<R::V> {
        Reaction {
            penalize: self.penalize,
            request: match self.request {
                Some(r) => Some(r@),
                None => None,
            },
        }
    }
}

/// The outcome of one turn of a fetch.
#[derive(Clone, Debug, PartialEq, Eq)]
pub enum Progress<R, T> {
    /// No request had a response ready: suspend until one has.
    Pending,
    /// A response was handled: carry out the reaction, then take another turn.
    Continue(Reaction<R>),
    /// The fetch is complete.
    Ready(T),
}

impl<R: View, T: View> View for Progress<R, T> {
    type V = Progress<R::V, T::V>;

    open spec fn view(&self) -> Progress<R::V, T::V> {
        match *self {
            Progress::Pending => Progress::Pending,
            Progress::Continue(reaction) => Progress::Continue(reaction@),
            Progress::Ready(value) => Progress::Ready(value@),
        }
    }
}

} // verus!
