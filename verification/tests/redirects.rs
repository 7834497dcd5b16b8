use paged_fetcher::fetch::FetchError;
use paged_fetcher::fetch::Fetcher;
use paged_fetcher::fetch::Hop;

fn location() -> Option<Vec<u8>> {
    Some(b"https://example.com/next".to_vec())
}

#[test]
fn eleven_requests_at_most() {
    let mut fetcher = Fetcher::new();
    let loc = location();
    let mut requests: usize = 1;
    loop {
        match fetcher.on_response(301, loc.as_ref()).unwrap() {
            Hop::Follow(_) => requests += 1,
            Hop::Finished => break,
        }
        assert!(requests <= 11);
    }
    // An endless redirect chain is cut off: the eleventh response is
    // returned as-is, though it is itself a redirect.
    assert_eq!(requests, 11);
}

#[test]
fn short_chain_returns_first_non_redirect() {
    let mut fetcher = Fetcher::new();
    let loc = location();
    assert!(matches!(fetcher.on_response(301, loc.as_ref()), Ok(Hop::Follow(_))));
    assert!(matches!(fetcher.on_response(302, loc.as_ref()), Ok(Hop::Follow(_))));
    assert!(matches!(fetcher.on_response(200, loc.as_ref()), Ok(Hop::Finished)));
}

#[test]
fn redirect_without_location_is_returned() {
    let mut fetcher = Fetcher::new();
    assert!(matches!(fetcher.on_response(301, None), Ok(Hop::Finished)));
}

#[test]
fn redirection_class_boundaries() {
    let loc = location();
    let mut fetcher = Fetcher::new();
    assert!(matches!(fetcher.on_response(300, loc.as_ref()), Ok(Hop::Follow(_))));
    let mut fetcher = Fetcher::new();
    assert!(matches!(fetcher.on_response(399, loc.as_ref()), Ok(Hop::Follow(_))));
    let mut fetcher = Fetcher::new();
    assert!(matches!(fetcher.on_response(299, loc.as_ref()), Ok(Hop::Finished)));
    let mut fetcher = Fetcher::new();
    assert!(matches!(fetcher.on_response(400, loc.as_ref()), Ok(Hop::Finished)));
}

#[test]
fn malformed_location_aborts_fetch() {
    let mut fetcher = Fetcher::new();
    let bad = Some(Vec::new());
    assert!(matches!(fetcher.on_response(302, bad.as_ref()), Err(FetchError::InvalidLocation)));
}

#[test]
fn followed_target_is_the_parsed_location() {
    let mut fetcher = Fetcher::new();
    let loc = location();
    match fetcher.on_response(307, loc.as_ref()) {
        Ok(Hop::Follow(uri)) => {
            assert_eq!(uri.host(), Some("example.com"));
            assert_eq!(uri.path(), "/next");
        }
        _ => panic!("a redirect with a valid location must be followed"),
    }
}
