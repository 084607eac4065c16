//! Fetching full blocks from an untrusted network: one block by hash, or a
//! descending run of blocks, as state machines that validate every response,
//! say which responder to penalize and which request to send again.

pub mod client;
pub mod laws;
pub mod order;
pub mod primitives;
pub mod range;
pub mod single;

pub use primitives::{
    H256, HeadersDirection, HeadersRequest, PeerId, PeerRequestResult, Poll, Progress, Reaction,
    RequestError, SealedBlock, SealedHeader, WithPeerId,
};
pub use single::{BlockRequest, FetchFullBlockFuture, FullBlockRequest, ResponseResult, SingleFetch};
pub use range::{
    FetchFullBlockRangeFuture, FullBlockRangeRequest, RangeFetch, RangeRequest, RangeRequestView,
    RangeResponseResult,
};
pub use client::FullBlockClient;
