//! The entry point: given the handle of a network, it starts fetches.

use crate::primitives::H256;
use crate::range::{FetchFullBlockRangeFuture, RangeFetch};
use crate::single::{FetchFullBlockFuture, SingleFetch};
use vstd::prelude::*;

verus! {

/// A client that can fetch full blocks from the network.
///
/// It keeps the handle through which requests are sent and responders are
/// penalized. The fetches it starts do not use the handle themselves: they
/// say what is to be sent, and the caller sends it through the handle.
#[derive(Debug, Clone)]
pub struct FullBlockClient<Client> {
    client: Client,
}

impl<Client> View for FullBlockClient<Client> {
    type V = Client;

    closed spec fn view(&self) -> Client {
        self.client
    }
}

impl<Client> FullBlockClient<Client> {
    /// Creates a new instance of `FullBlockClient`.
    pub fn new(client: Client) -> (full: Self)
        ensures
            full@ == client,
    {
        FullBlockClient { client }
    }

    /// The network handle.
    pub fn client(&self) -> (client: &Client)
        ensures
            *client == self@,
    {
        &self.client
    }

    /// Starts a fetch of the block with the given hash. Its header request
    /// and its body request are both in flight from the start.
    ///
    /// The body is not validated; the header of the block that the fetch
    /// yields has the requested hash.
    pub fn get_full_block<H, B>(&self, hash: H256) -> (fetch: FetchFullBlockFuture<H, B>)
        ensures
            fetch.wf(),
            fetch@ == SingleFetch::<H, B>::start(hash),
            fetch@.request.header == Some(hash),
            fetch@.request.body == Some(hash),
    {
        FetchFullBlockFuture::new(hash)
    }

    /// Starts a fetch of `count` blocks, from the block with the given hash
    /// downwards. The headers request is in flight from the start. If only
    /// one block is wanted, the bodies request is in flight from the start as
    /// well: it need not wait for the headers, since the one hash it asks for
    /// is known.
    ///
    /// The bodies are not validated; the first header of the range that the
    /// fetch yields has the requested hash, and there are `count` headers and
    /// `count` bodies.
    pub fn get_full_block_range<H, B>(&self, hash: H256, count: u64) -> (fetch:
        FetchFullBlockRangeFuture<H, B>)
        ensures
            fetch.wf(),
            fetch@ == RangeFetch::<H, B>::start(hash, count),
            fetch@.request_headers == Some(fetch@.headers_request()),
            count == 1 ==> fetch@.request_bodies == Some(seq![hash]),
            count != 1 ==> fetch@.request_bodies is None,
    {
        FetchFullBlockRangeFuture::new(hash, count)
    }
}

} // verus!
