//! What holds of the two fetches over any sequence of responses, stated over
//! their states as plain values.

use crate::order::{lemma_sort_desc, lemma_sort_desc_same_headers, sort_desc};
use crate::primitives::{
    H256, PeerId, PeerRequestResult, Poll, Progress, Reaction, SealedBlock, SealedHeader,
    WithPeerId,
};
use crate::range::{
    hashes_of, lemma_handle_headers_inv, RangeFetch, RangeRequestView, RangeResponseResult,
};
use crate::single::{BlockRequest, ResponseResult, SingleFetch};
use vstd::prelude::*;

verus! {

/// A single-block fetch starts in a state a fetch can be in, and no response
/// and no taking of the block leads out of those states.
pub proof fn lemma_single_states<H, B>(s: SingleFetch<H, B>, hash: H256, res: ResponseResult<H, B>)
    requires
        s.inv(),
    ensures
        SingleFetch::<H, B>::start(hash).inv(),
        s.on_response(res).inv(),
        s.taken().inv(),
        s.turn(Poll::Ready(res)).0.inv(),
        s.turn(Poll::<ResponseResult<H, B>>::Pending).0 == s,
{
}

/// A single-block fetch that has not yielded its block never idles: after
/// any response, each half is either held or has its request in flight.
pub proof fn lemma_single_never_idle<H, B>(s: SingleFetch<H, B>, res: ResponseResult<H, B>)
    requires
        s.inv(),
        !s.finished(),
    ensures
        s.on_response(res).header is Some || s.on_response(res).request.header == Some(s.hash),
        s.on_response(res).body is Some || s.on_response(res).request.body == Some(s.hash),
{
}

/// If the responder holds a header whose hash is the requested one, and a
/// body, the fetch yields exactly that header and that body, in whichever
/// order the two responses arrive, penalizes nobody and asks for nothing
/// again.
pub proof fn lemma_single_happy_path<H, B>(
    hash: H256,
    header: SealedHeader<H>,
    body: B,
    header_peer: PeerId,
    body_peer: PeerId,
)
    requires
        header.hash == hash,
    ensures
        ({
            let start = SingleFetch::<H, B>::start(hash);
            let header_res = ResponseResult::<H, B>::Header(
                Ok(WithPeerId(header_peer, Some(header))),
            );
            let body_res = ResponseResult::<H, B>::Body(Ok(WithPeerId(body_peer, Some(body))));
            let quiet = Reaction::<BlockRequest> { penalize: None, request: None };
            let block = SealedBlock { header, body };
            &&& start.reaction(header_res) == quiet
            &&& start.on_response(header_res).reaction(body_res) == quiet
            &&& start.on_response(header_res).on_response(body_res).block() == Some(block)
            &&& start.turn(Poll::Ready(header_res)).1 == Progress::<
                BlockRequest,
                SealedBlock<H, B>,
            >::Continue(quiet)
            &&& start.turn(Poll::Ready(header_res)).0.turn(Poll::Ready(body_res)).1
                == Progress::<BlockRequest, SealedBlock<H, B>>::Ready(block)
            &&& start.reaction(body_res) == quiet
            &&& start.on_response(body_res).reaction(header_res) == quiet
            &&& start.on_response(body_res).on_response(header_res).block() == Some(block)
            &&& start.turn(Poll::Ready(body_res)).0.turn(Poll::Ready(header_res)).1
                == Progress::<BlockRequest, SealedBlock<H, B>>::Ready(block)
        }),
{
}

/// A header whose hash is not the requested one is never kept: its responder
/// is penalized, the header request goes out again, and the state of the
/// fetch is what it was before.
pub proof fn lemma_single_wrong_header<H, B>(
    s: SingleFetch<H, B>,
    peer: PeerId,
    header: SealedHeader<H>,
)
    requires
        s.inv(),
        s.request.header is Some,
        header.hash != s.hash,
    ensures
        ({
            let res = ResponseResult::<H, B>::Header(Ok(WithPeerId(peer, Some(header))));
            &&& s.reaction(res) == Reaction {
                penalize: Some(peer),
                request: Some(BlockRequest::Header(s.hash)),
            }
            &&& s.on_response(res) == s
            &&& s.on_response(res).header is None
        }),
{
}

/// A request that failed, or that found nothing, is sent again and nobody is
/// penalized for it.
pub proof fn lemma_single_retry_without_penalty<H, B>(
    s: SingleFetch<H, B>,
    res: ResponseResult<H, B>,
)
    requires
        s.inv(),
        match res {
            ResponseResult::Header(r) => s.request.header is Some && (r is Err || r->Ok_0.1 is None),
            ResponseResult::Body(r) => s.request.body is Some && (r is Err || r->Ok_0.1 is None),
        },
    ensures
        s.on_response(res) == s,
        s.reaction(res).penalize is None,
        s.reaction(res).request == Some(
            match res {
                ResponseResult::Header(_) => BlockRequest::Header(s.hash),
                ResponseResult::Body(_) => BlockRequest::Body(s.hash),
            },
        ),
{
}

/// Whatever responses came before, the header of a block that a single-block
/// fetch yields has the requested hash.
pub proof fn lemma_single_block_has_hash<H, B>(
    s: SingleFetch<H, B>,
    polled: Poll<ResponseResult<H, B>>,
)
    requires
        s.inv(),
    ensures
        s.block() matches Some(block) ==> block.header.hash == s.hash,
        s.turn(polled).1 matches Progress::Ready(block) ==> block.header.hash == s.hash,
        s.turn(polled).1 is Ready ==> s.turn(polled).0.finished(),
{
}

/// The state of a single-block fetch after the responses of `responses` have
/// arrived one after the other.
pub open spec fn single_after<H, B>(
    s: SingleFetch<H, B>,
    responses: Seq<ResponseResult<H, B>>,
) -> SingleFetch<H, B>
    decreases responses.len(),
{
    if responses.len() == 0 {
        s
    } else {
        single_after(s, responses.drop_last()).on_response(responses.last())
    }
}

/// Whatever responses arrive, in whatever order, a single-block fetch keeps
/// its hash, and if it then has a block to yield, the header of that block
/// has the requested hash.
pub proof fn lemma_single_after_any_responses<H, B>(
    hash: H256,
    responses: Seq<ResponseResult<H, B>>,
)
    ensures
        single_after(SingleFetch::<H, B>::start(hash), responses).inv(),
        single_after(SingleFetch::<H, B>::start(hash), responses).hash == hash,
        single_after(SingleFetch::<H, B>::start(hash), responses).block() matches Some(block)
            ==> block.header.hash == hash,
    decreases responses.len(),
{
    if responses.len() > 0 {
        lemma_single_after_any_responses(hash, responses.drop_last());
    }
}

/// A range fetch starts in a state a fetch can be in, and no response and no
/// taking of the blocks leads out of those states.
pub proof fn lemma_range_states<H, B>(
    s: RangeFetch<H, B>,
    hash: H256,
    count: u64,
    res: RangeResponseResult<H, B>,
)
    requires
        s.inv(),
    ensures
        RangeFetch::<H, B>::start(hash, count).inv(),
        s.on_response(res).inv(),
        s.taken().inv(),
        s.turn(Poll::Ready(res)).0.inv(),
        s.turn(Poll::<RangeResponseResult<H, B>>::Pending).0 == s,
{
    match res {
        RangeResponseResult::Header(r) => {
            if s.request_headers is Some {
                lemma_handle_headers_inv(s, r);
            }
        },
        RangeResponseResult::Body(r) => {},
    }
}

/// The blocks that a range fetch yields are `count` in number, the first has
/// the requested hash, and the block numbers never rise along the range.
pub proof fn lemma_range_shape<H, B>(s: RangeFetch<H, B>)
    requires
        s.inv(),
    ensures
        s.blocks() matches Some(blocks) ==> {
            &&& blocks.len() == s.count
            &&& blocks[0].header.hash == s.hash
            &&& forall|i: int, j: int|
                0 <= i < j < blocks.len() ==> blocks[i].header.number >= blocks[j].header.number
            &&& forall|i: int|
                0 <= i < blocks.len() ==> blocks[i].header == s.headers->0[i] && blocks[i].body
                    == s.bodies->0[i]
        },
{
}

/// The state of a range fetch after the responses of `responses` have
/// arrived one after the other.
pub open spec fn range_after<H, B>(
    s: RangeFetch<H, B>,
    responses: Seq<RangeResponseResult<H, B>>,
) -> RangeFetch<H, B>
    decreases responses.len(),
{
    if responses.len() == 0 {
        s
    } else {
        range_after(s, responses.drop_last()).on_response(responses.last())
    }
}

/// Whatever responses arrive, in whatever order, if a range fetch then has
/// blocks to yield, they are `count` in number, the first has the requested
/// hash, and the block numbers never rise along the range. And as long as a
/// range of more than one block holds no validated headers, it has asked for
/// no bodies.
pub proof fn lemma_range_after_any_responses<H, B>(
    hash: H256,
    count: u64,
    responses: Seq<RangeResponseResult<H, B>>,
)
    ensures
        ({
            let s = range_after(RangeFetch::<H, B>::start(hash, count), responses);
            &&& s.inv()
            &&& s.hash == hash
            &&& s.count == count
            &&& s.blocks() matches Some(blocks) ==> {
                &&& blocks.len() == count
                &&& blocks[0].header.hash == hash
                &&& forall|i: int, j: int|
                    0 <= i < j < blocks.len() ==> blocks[i].header.number
                        >= blocks[j].header.number
            }
            &&& count != 1 && s.headers is None ==> !s.has_bodies_request_started()
        }),
    decreases responses.len(),
{
    if responses.len() > 0 {
        lemma_range_after_any_responses::<H, B>(hash, count, responses.drop_last());
        let before = range_after(RangeFetch::<H, B>::start(hash, count), responses.drop_last());
        lemma_range_states(before, hash, count, responses.last());
    }
    let s = range_after(RangeFetch::<H, B>::start(hash, count), responses);
    lemma_range_shape(s);
}

/// The block numbers of `sent` are `sent.len()` different numbers, the
/// highest of which is at most `top`, and none of which is `sent.len()` or
/// more below `top`: in some order, they are the numbers from `top` down.
pub open spec fn numbers_run_down_from<H>(sent: Seq<SealedHeader<H>>, top: int) -> bool {
    &&& forall|i: int| 0 <= i < sent.len() ==> top - sent.len() < #[trigger] sent[i].number <= top
    &&& forall|i: int, j: int|
        0 <= i < sent.len() && 0 <= j < sent.len() && i != j ==> sent[i].number != sent[j].number
}

/// In a run whose numbers fall strictly, a later header is below an earlier
/// one by at least their distance.
proof fn lemma_strict_fall<H>(t: Seq<SealedHeader<H>>, i: int, j: int)
    requires
        0 <= i <= j < t.len(),
        forall|a: int, b: int| 0 <= a < b < t.len() ==> t[a].number > t[b].number,
    ensures
        t[i].number - t[j].number >= j - i,
    decreases j - i,
{
    if i < j {
        lemma_strict_fall(t, i, j - 1);
    }
}

/// Ordering headers whose numbers are the numbers from `top` down, in any
/// order, puts number `top - i` at position `i`.
pub proof fn lemma_sort_desc_run<H>(sent: Seq<SealedHeader<H>>, top: int)
    requires
        numbers_run_down_from(sent, top),
    ensures
        forall|i: int| 0 <= i < sent.len() ==> #[trigger] sort_desc(sent)[i].number == top - i,
{
    let t = sort_desc(sent);
    let n = sent.len() as int;
    lemma_sort_desc(sent);
    lemma_sort_desc_same_headers(sent);
    assert(sent.no_duplicates());
    sent.lemma_multiset_has_no_duplicates();
    assert forall|x: SealedHeader<H>| t.to_multiset().contains(x) implies t.to_multiset().count(x)
        == 1 by {}
    t.lemma_multiset_has_no_duplicates_conv();
    assert forall|a: int, b: int| 0 <= a < b < n implies t[a].number > t[b].number by {
        let j1 = choose|j: int| 0 <= j < n && sent[j] == t[a];
        let j2 = choose|j: int| 0 <= j < n && sent[j] == t[b];
        assert(t[a] != t[b]);
        assert(j1 != j2);
    }
    assert forall|i: int| 0 <= i < n implies #[trigger] t[i].number == top - i by {
        lemma_strict_fall(t, 0, i);
        lemma_strict_fall(t, i, n - 1);
        let j0 = choose|j: int| 0 <= j < n && sent[j] == t[0];
        let j9 = choose|j: int| 0 <= j < n && sent[j] == t[n - 1];
        assert(sent[j0].number <= top);
        assert(sent[j9].number > top - n);
    }
}

/// If the headers that a range fetch accepts carry, in any order, the numbers
/// from `top` down, then the block numbers of the range it holds fall by one
/// from each position to the next, and so do those of the blocks it yields,
/// whether the bodies were there before the headers or come after them.
pub proof fn lemma_range_numbers_fall_by_one<H, B>(
    s: RangeFetch<H, B>,
    res: PeerRequestResult<Vec<SealedHeader<H>>>,
    bodies: RangeResponseResult<H, B>,
    top: int,
)
    requires
        s.inv(),
        s.request_headers is Some,
        s.accepted_headers(res) is Some,
        numbers_run_down_from(res->Ok_0.1@, top),
        bodies is Body,
    ensures
        ({
            let held = s.on_response(RangeResponseResult::Header(res));
            &&& held.headers matches Some(headers) && {
                &&& headers.len() == s.count
                &&& headers[0].hash == s.hash
                &&& forall|i: int|
                    0 <= i < headers.len() ==> #[trigger] headers[i].number == top - i
            }
            &&& held.blocks() matches Some(blocks) ==> {
                &&& blocks.len() == s.count
                &&& forall|i: int|
                    0 <= i < blocks.len() ==> #[trigger] blocks[i].header.number == top - i
            }
            &&& held.on_response(bodies).blocks() matches Some(blocks) ==> {
                &&& blocks.len() == s.count
                &&& forall|i: int|
                    0 <= i < blocks.len() ==> #[trigger] blocks[i].header.number == top - i
            }
        }),
{
    lemma_sort_desc_run(res->Ok_0.1@, top);
    lemma_sort_desc(res->Ok_0.1@);
    lemma_handle_headers_inv(s, res);
}

/// For a range of one block the bodies request is in flight from the start,
/// beside the headers request; for any other range it is not.
pub proof fn lemma_range_early_bodies<H, B>(hash: H256, count: u64)
    ensures
        RangeFetch::<H, B>::start(hash, count).request_headers is Some,
        count == 1 ==> RangeFetch::<H, B>::start(hash, count).request_bodies == Some(seq![hash]),
        count != 1 ==> !RangeFetch::<H, B>::start(hash, count).has_bodies_request_started(),
{
}

/// Headers that are not `count` in number are never kept: their responder is
/// penalized, the same headers request goes out again, no bodies request goes
/// out, and the state of the fetch is what it was before.
pub proof fn lemma_range_wrong_header_count<H, B>(
    s: RangeFetch<H, B>,
    peer: PeerId,
    headers: Vec<SealedHeader<H>>,
)
    requires
        s.inv(),
        s.request_headers is Some,
        headers@.len() != s.count,
    ensures
        ({
            let res = RangeResponseResult::<H, B>::Header(Ok(WithPeerId(peer, headers)));
            &&& s.reaction(res) == Reaction {
                penalize: Some(peer),
                request: Some(RangeRequestView::Headers(s.headers_request())),
            }
            &&& s.on_response(res) == s
        }),
{
}

/// Headers whose highest one does not have the requested hash are never
/// kept: their responder is penalized and the same headers request goes out
/// again.
pub proof fn lemma_range_wrong_start<H, B>(
    s: RangeFetch<H, B>,
    peer: PeerId,
    headers: Vec<SealedHeader<H>>,
)
    requires
        s.inv(),
        s.request_headers is Some,
        headers@.len() > 0,
        sort_desc(headers@)[0].hash != s.hash,
    ensures
        ({
            let res = RangeResponseResult::<H, B>::Header(Ok(WithPeerId(peer, headers)));
            &&& s.reaction(res) == Reaction {
                penalize: Some(peer),
                request: Some(RangeRequestView::Headers(s.headers_request())),
            }
            &&& s.on_response(res) == s
        }),
{
}

/// Before a range of more than one block holds validated headers, no bodies
/// request is in flight and no bodies are held; and a response makes the
/// fetch ask for bodies only if, after it, the fetch holds validated headers
/// or the range is one block.
pub proof fn lemma_range_no_bodies_before_headers<H, B>(
    s: RangeFetch<H, B>,
    res: RangeResponseResult<H, B>,
)
    requires
        s.inv(),
    ensures
        s.count != 1 && s.headers is None ==> s.request_bodies is None && s.bodies is None,
        s.reaction(res).request matches Some(RangeRequestView::Bodies(hashes)) ==> {
            &&& s.on_response(res).bodies_hashes() == Some(hashes)
            &&& s.on_response(res).headers is Some || s.count == 1
        },
{
    lemma_range_states(s, s.hash, s.count, res);
}

/// Bodies that are not `count` in number are never kept: their responder is
/// penalized and the bodies request goes out again, for the hashes of the
/// headers that are held. No headers request goes out, and the state of the
/// fetch is what it was before.
pub proof fn lemma_range_bodies_retry<H, B>(s: RangeFetch<H, B>, peer: PeerId, bodies: Vec<B>)
    requires
        s.inv(),
        s.request_bodies is Some,
        bodies@.len() != s.count,
    ensures
        ({
            let res = RangeResponseResult::<H, B>::Body(Ok(WithPeerId(peer, bodies)));
            &&& s.reaction(res).penalize == Some(peer)
            &&& s.reaction(res).request == Some(RangeRequestView::Bodies(s.request_bodies->0))
            &&& s.headers matches Some(headers) ==> s.request_bodies->0 == hashes_of(headers)
            &&& s.headers is None ==> s.count == 1 && s.request_bodies->0 == seq![s.hash]
            &&& s.on_response(res) == s
        }),
{
}

/// A range request that failed is sent again and nobody is penalized for
/// it.
pub proof fn lemma_range_retry_without_penalty<H, B>(
    s: RangeFetch<H, B>,
    res: RangeResponseResult<H, B>,
)
    requires
        s.inv(),
        match res {
            RangeResponseResult::Header(r) => s.request_headers is Some && r is Err,
            RangeResponseResult::Body(r) => s.request_bodies is Some && r is Err,
        },
    ensures
        s.on_response(res) == s,
        s.reaction(res).penalize is None,
        s.reaction(res).request == Some(
            match res {
                RangeResponseResult::Header(_) => RangeRequestView::Headers(s.headers_request()),
                RangeResponseResult::Body(_) => RangeRequestView::Bodies(s.request_bodies->0),
            },
        ),
{
}

} // verus!
