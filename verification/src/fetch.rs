//! The redirecting fetcher's decision logic.
//!
//! The fetcher issues a request and examines the response: a response in
//! the redirection class that carries a `Location` header is followed -
//! same method, same headers, new target - as long as fewer than ten
//! redirects have been followed; every other response, the tenth
//! redirect's successor included, is returned as-is. A `Location` value
//! that is no URI aborts the whole fetch. The network call itself is the
//! caller's: it hands each response's status and raw `Location` bytes
//! back in here and performs the hop this module decides.

use vstd::prelude::*;

verus! {

/// HTTP status codes 300 through 399: the redirection class.
pub open spec fn is_redirect(status: u16) -> bool {
    300 <= status && status <= 399
}

/// Whether bytes form a valid URI, as the HTTP URI parser decides it:
/// a function of the bytes alone.
pub uninterp spec fn uri_parses(bytes: Seq<u8>) -> bool;

/// Declares `hyper::Uri`, the parsed redirect target the caller requests
/// next; the library carries it through without looking inside.
#[verifier::external_type_specification]
#[verifier::external_body]
pub struct ExUri(hyper::Uri);

/// Declares the URI parser's error type, which the library maps to its
/// own `FetchError`.
#[verifier::external_type_specification]
#[verifier::external_body]
pub struct ExInvalidUri(hyper::http::uri::InvalidUri);

/// The fetch errors of the library's own.
#[derive(Debug)]
pub enum FetchError {
    /// A redirect's `Location` header failed to parse as a URI; the whole
    /// fetch is abandoned, redirect hops already spent included.
    InvalidLocation,
}

/// Relies on `hyper::Uri::try_from` over raw bytes (the `http` crate's
/// URI parser): parsing succeeds exactly when the bytes form a valid URI,
/// and the outcome is a function of the bytes alone.
#[verifier::external_body]
fn parse_location(bytes: &Vec<u8>) -> (r: Result<hyper::Uri, hyper::http::uri::InvalidUri>)
    ensures
        r is Ok <==> uri_parses(bytes@),
{
    hyper::Uri::try_from(bytes.as_slice())
}

/// What the caller must do after handing a response in: issue the same
/// request once more against the parsed redirect target, or stop and
/// return this response as the fetch's result.
pub enum Hop {
    /// Follow the redirect: request the contained target next.
    Follow(hyper::Uri),
    /// Return the response just examined; the fetch is over.
    Finished,
}

/// The view of a `Location` argument: the header's bytes when one came
/// with the response.
pub open spec fn loc_view(location: Option<&Vec<u8>>) -> Option<Seq<u8>> {
    match location {
        Some(b) => Some(b@),
        None => None,
    }
}

/// Whether the fetcher wants to follow: redirects followed so far below
/// ten, status in the redirection class, and a `Location` header present.
pub open spec fn wants_follow(hops: int, status: u16, location: Option<Seq<u8>>) -> bool {
    hops < 10 && is_redirect(status) && location is Some
}

/// Whether the `Location` bytes at hand parse as a URI.
pub open spec fn loc_parses(location: Option<Seq<u8>>) -> bool {
    match location {
        Some(b) => uri_parses(b),
        None => false,
    }
}

/// Whether the fetcher follows: it wants to and the target parses.
pub open spec fn spec_follows(hops: int, status: u16, location: Option<Seq<u8>>) -> bool {
    wants_follow(hops, status, location) && loc_parses(location)
}

/// Tracks one fetch across its redirect hops.
pub struct Fetcher {
    hops: u64,
}

impl Fetcher {
    /// How many redirects this fetch has followed so far.
    pub closed spec fn hops(self) -> u64 {
        self.hops
    }

    /// A fetch that has followed no redirect yet: the first request goes
    /// to the originally requested URI.
    pub fn new() -> (r: Self)
        ensures
            r.hops() == 0,
    {
        Fetcher { hops: 0 }
    }

    /// Examines one response - its status and the raw bytes of its
    /// `Location` header, if any - and decides the next step. Follows
    /// exactly when fewer than ten redirects have been followed, the
    /// status is in the redirection class and the `Location` bytes parse;
    /// fails exactly when such a wanted target does not parse; returns
    /// the response in every other case, a redirect beyond the cap
    /// included.
    pub fn on_response(&mut self, status: u16, location: Option<&Vec<u8>>) -> (r: Result<
        Hop,
        FetchError,
    >)
        ensures
            ({
                let loc = loc_view(location);
                let h = old(self).hops() as int;
                &&& (r matches Ok(Hop::Follow(_))) == spec_follows(h, status, loc)
                &&& (r is Err) == (wants_follow(h, status, loc) && !loc_parses(loc))
                &&& (r matches Err(e) ==> e == FetchError::InvalidLocation)
                &&& (r == Ok::<Hop, FetchError>(Hop::Finished)) == !wants_follow(h, status, loc)
                &&& final(self).hops() as int == if spec_follows(h, status, loc) {
                    h + 1
                } else {
                    h
                }
            }),
    {
        if self.hops < 10 && 300 <= status && status <= 399 {
            if let Some(bytes) = location {
                return match parse_location(bytes) {
                    Ok(uri) => {
                        self.hops = self.hops + 1;
                        Ok(Hop::Follow(uri))
                    },
                    Err(_) => Err(FetchError::InvalidLocation),
                };
            }
        }
        Ok(Hop::Finished)
    }
}

/// One position in a synthetic redirect chain is a response's status and
/// the bytes of its `Location` header, if any. The fetcher leaves the
/// chain at `i` when it followed every response before `i` and does not
/// follow response `i`: it either returns that response or fails on its
/// `Location` value.
pub open spec fn leaves_at(chain: Seq<(u16, Option<Seq<u8>>)>, i: int) -> bool {
    &&& 0 <= i < chain.len()
    &&& !spec_follows(i, chain[i].0, chain[i].1)
    &&& forall|j: int| 0 <= j < i ==> spec_follows(j, chain[j].0, chain[j].1)
}

/// Redirect bound: wherever the fetcher leaves a chain, it has examined
/// at most eleven responses - issued at most eleven requests - since a
/// response is only followed while fewer than ten redirects have been
/// followed.
pub proof fn lemma_redirect_bound(chain: Seq<(u16, Option<Seq<u8>>)>, i: int)
    requires
        leaves_at(chain, i),
    ensures
        i <= 10,
{
    if i > 10 {
        assert(spec_follows(10, chain[10].0, chain[10].1));
        assert(false);
    }
}

/// A chain of eleven or more redirects, every `Location` a valid URI, is
/// left exactly at the eleventh response: the fetcher returns it as-is,
/// redirect though it is.
pub proof fn lemma_redirect_chain_capped(chain: Seq<(u16, Option<Seq<u8>>)>)
    requires
        chain.len() >= 11,
        forall|j: int|
            0 <= j < chain.len() ==> is_redirect(chain[j].0) && loc_parses(chain[j].1),
    ensures
        leaves_at(chain, 10),
        !(wants_follow(10, chain[10].0, chain[10].1) && !loc_parses(chain[10].1)),
{
}

/// A chain whose first non-followable response comes at `k`, before the
/// cap, is left exactly there: the final response of a short chain is the
/// one returned.
pub proof fn lemma_redirect_chain_short(chain: Seq<(u16, Option<Seq<u8>>)>, k: int)
    requires
        0 <= k <= 10,
        k < chain.len(),
        forall|j: int| 0 <= j < k ==> is_redirect(chain[j].0) && loc_parses(chain[j].1),
        !(is_redirect(chain[k].0) && loc_parses(chain[k].1)),
    ensures
        leaves_at(chain, k),
{
}

/// The fetcher leaves a chain at one place only.
pub proof fn lemma_leave_unique(chain: Seq<(u16, Option<Seq<u8>>)>, i: int, j: int)
    requires
        leaves_at(chain, i),
        leaves_at(chain, j),
    ensures
        i == j,
{
    if i < j {
        assert(spec_follows(i, chain[i].0, chain[i].1));
        assert(false);
    } else if j < i {
        assert(spec_follows(j, chain[j].0, chain[j].1));
        assert(false);
    }
}

} // verus!
