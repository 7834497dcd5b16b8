//! The pagination engine: given a full encoded body and an offset, decide
//! what slice to return now and what, if anything, to cache for the next
//! call.
//!
//! Offsets count characters of the encoded text. A page that leaves more
//! data behind stores the entire body back into the cache and announces
//! the next offset; the final page returns the remainder and stores
//! nothing. An offset at or past the end of the body yields an empty
//! final page rather than an error.

use vstd::prelude::*;
use vstd::string::StrSliceExecFns;

use crate::cache::Cache;
use crate::encode::b64_of;
use crate::encode::base64_encode;
use crate::request::Request;
use crate::request::effective_offset;

verus! {

/// The page size: the largest number of encoded characters one reply may
/// carry.
pub const MAX_RESPONSE_LEN: usize = 6291456;

/// The reply for one call: the encoded chunk to return now, and the
/// continuation offset, present exactly when more data remains.
pub struct Response {
    /// The slice of the encoded body this call returns.
    pub data: String,
    /// Where the next call should continue, absent when the body is done.
    pub next: Option<usize>,
}

/// The slice of `body` a call with `offset` returns under page size
/// `limit`: a full page when more than a page remains, the remainder when
/// the body's end is within reach, and nothing when the offset lies at or
/// past the end.
pub open spec fn page_data(body: Seq<char>, offset: int, limit: int) -> Seq<char> {
    if offset + limit < body.len() {
        body.subrange(offset, offset + limit)
    } else if offset <= body.len() {
        body.subrange(offset, body.len() as int)
    } else {
        Seq::empty()
    }
}

/// The continuation offset announced with that slice: present exactly
/// when data remains past the returned page.
pub open spec fn page_next(body: Seq<char>, offset: int, limit: int) -> Option<int> {
    if offset + limit < body.len() {
        Some(offset + limit)
    } else {
        None
    }
}

/// Slices one page out of `data`, with an explicit page size: the returned
/// chunk and continuation follow `page_data` and `page_next`, and the
/// entire body is stored back under `uri` exactly when a continuation is
/// announced.
pub fn paginate(uri: String, data: String, offset: usize, limit: usize, cache: &mut Cache) -> (r:
    Response)
    ensures
        r.data@ == page_data(data@, offset as int, limit as int),
        (r.next is Some) == (page_next(data@, offset as int, limit as int) is Some),
        (r.next matches Some(n) ==> page_next(data@, offset as int, limit as int) == Some(
            n as int,
        )),
        offset + limit < data@.len() ==> final(cache)@ == old(cache)@.insert(uri@, data@),
        offset + limit >= data@.len() ==> final(cache)@ == old(cache)@,
{
    let len: usize = data.as_str().unicode_len();
    if offset < len && limit < len - offset {
        let end: usize = offset + limit;
        let chunk = data.as_str().substring_char(offset, end).to_owned();
        cache.insert(uri, data);
        Response { data: chunk, next: Some(end) }
    } else if offset == 0 {
        proof {
            assert(data@.subrange(0, data@.len() as int) =~= data@);
        }
        Response { data, next: None }
    } else if offset < len {
        let chunk = data.as_str().substring_char(offset, len).to_owned();
        Response { data: chunk, next: None }
    } else {
        proof {
            if offset == data@.len() {
                assert(data@.subrange(offset as int, data@.len() as int) =~= Seq::<char>::empty());
            }
        }
        Response { data: String::new(), next: None }
    }
}

/// Slices one page out of `data` at the fixed page size
/// `MAX_RESPONSE_LEN`, caching the entire body under `uri` exactly when
/// more data remains past the returned page.
pub fn slice_response(uri: String, data: String, offset: usize, cache: &mut Cache) -> (r: Response)
    ensures
        r.data@ == page_data(data@, offset as int, MAX_RESPONSE_LEN as int),
        (r.next is Some) == (offset + MAX_RESPONSE_LEN < data@.len()),
        (r.next matches Some(n) ==> n == offset + MAX_RESPONSE_LEN),
        offset + MAX_RESPONSE_LEN < data@.len() ==> final(cache)@ == old(cache)@.insert(
            uri@,
            data@,
        ),
        offset + MAX_RESPONSE_LEN >= data@.len() ==> final(cache)@ == old(cache)@,
{
    paginate(uri, data, offset, MAX_RESPONSE_LEN, cache)
}

/// Step one of the engine: a request that carries a continuation offset
/// consumes the cached body for its URI and pages out of it, skipping the
/// fetch entirely. Returns nothing - and leaves the cache untouched - when
/// no offset is supplied or no entry is pending, in which case the caller
/// must fetch. On the non-final page the same body is stored back, so the
/// cache is unchanged; the final page removes the entry for good.
pub fn handle_continuation(cache: &mut Cache, request: &Request) -> (r: Option<Response>)
    ensures
        (r is Some) == (request.offset is Some && old(cache)@.contains_key(request.uri@)),
        r is None ==> final(cache)@ == old(cache)@,
        (r matches Some(resp) ==> ({
            let body = old(cache)@[request.uri@];
            let o = effective_offset(request.offset);
            &&& resp.data@ == page_data(body, o, MAX_RESPONSE_LEN as int)
            &&& (resp.next is Some) == (o + MAX_RESPONSE_LEN < body.len())
            &&& (resp.next matches Some(n) ==> n == o + MAX_RESPONSE_LEN)
            &&& (o + MAX_RESPONSE_LEN < body.len() ==> final(cache)@ == old(cache)@)
            &&& (o + MAX_RESPONSE_LEN >= body.len() ==> final(cache)@ == old(cache)@.remove(
                request.uri@,
            ))
        })),
{
    match request.offset {
        Some(offset) => {
            match cache.remove(&request.uri) {
                Some(data) => {
                    let ghost body = data@;
                    let r = slice_response(request.uri.clone(), data, offset, cache);
                    proof {
                        if offset + MAX_RESPONSE_LEN < body.len() {
                            assert(old(cache)@.remove(request.uri@).insert(request.uri@, body)
                                =~= old(cache)@);
                        }
                    }
                    Some(r)
                },
                None => None,
            }
        },
        None => None,
    }
}

/// Step two of the engine: the fetched body, already aggregated, is run
/// through the transcoder and the first reply is paged out of the encoded
/// text at the request's effective offset, caching the entire encoded
/// body under the request's URI exactly when more data remains.
pub fn handle_fetched(cache: &mut Cache, request: &Request, body: Vec<u8>) -> (r: Response)
    requires
        4 * ((body@.len() + 2) / 3) <= usize::MAX,
    ensures
        (({
            let encoded = b64_of(body@);
            let o = effective_offset(request.offset);
            &&& r.data@ == page_data(encoded, o, MAX_RESPONSE_LEN as int)
            &&& (r.next is Some) == (o + MAX_RESPONSE_LEN < encoded.len())
            &&& (r.next matches Some(n) ==> n == o + MAX_RESPONSE_LEN)
            &&& (o + MAX_RESPONSE_LEN < encoded.len() ==> final(cache)@ == old(cache)@.insert(
                request.uri@,
                encoded,
            ))
            &&& (o + MAX_RESPONSE_LEN >= encoded.len() ==> final(cache)@ == old(cache)@)
        })),
{
    let data = base64_encode(&body);
    let offset: usize = match request.offset {
        Some(o) => o,
        None => 0,
    };
    slice_response(request.uri.clone(), data, offset, cache)
}

/// The concatenation of every page from `offset` onward: each page's data,
/// followed by the pages starting at the continuation it announces, until
/// the page whose continuation is absent.
pub open spec fn pages_concat(body: Seq<char>, offset: int, limit: int) -> Seq<char>
    decreases body.len() - offset when 0 < limit
{
    match page_next(body, offset, limit) {
        Some(next) => page_data(body, offset, limit) + pages_concat(body, next, limit),
        None => page_data(body, offset, limit),
    }
}

/// Chunking correctness: repeatedly calling from `offset`, following each
/// announced continuation and concatenating the data fields, reproduces
/// the tail of the body from `offset` exactly; the last call announces no
/// continuation.
pub proof fn lemma_chunking(body: Seq<char>, offset: int, limit: int)
    requires
        0 <= offset <= body.len(),
        0 < limit,
    ensures
        pages_concat(body, offset, limit) == body.subrange(offset, body.len() as int),
    decreases body.len() - offset,
{
    if offset + limit < body.len() {
        lemma_chunking(body, offset + limit, limit);
        assert(body.subrange(offset, offset + limit) + body.subrange(
            offset + limit,
            body.len() as int,
        ) =~= body.subrange(offset, body.len() as int));
    }
}

/// Chunking correctness from the start: beginning at offset 0 and
/// following every continuation, the concatenated pages are the whole
/// body.
pub proof fn lemma_chunking_whole(body: Seq<char>, limit: int)
    requires
        0 < limit,
    ensures
        pages_concat(body, 0, limit) == body,
{
    lemma_chunking(body, 0, limit);
    assert(body.subrange(0, body.len() as int) =~= body);
}

/// Idempotent small-body path: a body that fits in one page is returned
/// whole from offset 0, with no continuation and hence nothing cached.
pub proof fn lemma_small_body(body: Seq<char>, limit: int)
    requires
        0 < limit,
        body.len() <= limit,
    ensures
        page_data(body, 0, limit) == body,
        page_next(body, 0, limit) is None,
{
    assert(body.subrange(0, body.len() as int) =~= body);
}

/// Offset past the end: an offset at or past the body's length yields an
/// empty page and no continuation.
pub proof fn lemma_offset_past_end(body: Seq<char>, offset: int, limit: int)
    requires
        0 <= limit,
        offset >= body.len(),
    ensures
        page_data(body, offset, limit) == Seq::<char>::empty(),
        page_next(body, offset, limit) is None,
{
    if offset <= body.len() {
        assert(body.subrange(offset, body.len() as int) =~= Seq::<char>::empty());
    }
}

} // verus!

