use base64::Engine;
use paged_fetcher::cache::Cache;
use paged_fetcher::page::handle_continuation;
use paged_fetcher::page::handle_fetched;
use paged_fetcher::page::MAX_RESPONSE_LEN;
use paged_fetcher::request::Request;

fn request(uri: &str, offset: Option<usize>) -> Request {
    Request {
        method: String::from("GET"),
        uri: String::from(uri),
        headers: Vec::new(),
        offset,
    }
}

#[test]
fn fetched_body_is_base64_encoded() {
    let mut cache = Cache::new();
    let req = request("https://example.com/hello", None);
    let reply = handle_fetched(&mut cache, &req, b"hello".to_vec());
    assert_eq!(reply.data, "aGVsbG8=");
    assert_eq!(reply.next, None);
}

#[test]
fn fetched_empty_body() {
    let mut cache = Cache::new();
    let req = request("https://example.com/empty", None);
    let reply = handle_fetched(&mut cache, &req, Vec::new());
    assert_eq!(reply.data, "");
    assert_eq!(reply.next, None);
}

#[test]
fn no_offset_never_reads_cache() {
    let mut cache = Cache::new();
    let uri = "https://example.com/fresh";
    cache.insert(String::from(uri), String::from("STALE"));
    assert!(handle_continuation(&mut cache, &request(uri, None)).is_none());
    assert_eq!(cache.remove(&String::from(uri)), Some(String::from("STALE")));
}

#[test]
fn stale_offset_misses_cache() {
    let mut cache = Cache::new();
    let req = request("https://example.com/gone", Some(100));
    assert!(handle_continuation(&mut cache, &req).is_none());
}

#[test]
fn offset_past_end_on_cache_hit() {
    let mut cache = Cache::new();
    let uri = "https://example.com/short";
    cache.insert(String::from(uri), String::from("aGVsbG8="));
    let reply = handle_continuation(&mut cache, &request(uri, Some(100)))
        .expect("the continuation must hit the cached body");
    assert_eq!(reply.data, "");
    assert_eq!(reply.next, None);
    assert_eq!(cache.remove(&String::from(uri)), None);
}

#[test]
fn non_final_continuation_recaches_the_body() {
    let mut cache = Cache::new();
    let uri = "https://example.com/huge";
    let body = "A".repeat(2 * MAX_RESPONSE_LEN + 5);
    cache.insert(String::from(uri), body.clone());

    let first = handle_continuation(&mut cache, &request(uri, Some(0)))
        .expect("the continuation must hit the cached body");
    assert_eq!(first.data.len(), MAX_RESPONSE_LEN);
    assert_eq!(first.next, Some(MAX_RESPONSE_LEN));

    // The page left more data behind, so the entire body was stored back.
    let second = handle_continuation(&mut cache, &request(uri, first.next))
        .expect("the re-cached body must still be there");
    assert_eq!(second.data.len(), MAX_RESPONSE_LEN);
    assert_eq!(second.next, Some(2 * MAX_RESPONSE_LEN));

    let third = handle_continuation(&mut cache, &request(uri, second.next))
        .expect("the re-cached body must still be there");
    assert_eq!(third.data, "AAAAA");
    assert_eq!(third.next, None);

    // The final page consumed the entry.
    assert!(handle_continuation(&mut cache, &request(uri, second.next)).is_none());
}

#[test]
fn oversized_body_pages_through_continuations() {
    let mut cache = Cache::new();
    let uri = "https://example.com/big";
    let body: Vec<u8> = vec![7u8; 5_000_000];
    let encoded = base64::engine::general_purpose::STANDARD.encode(&body);
    assert!(encoded.len() > MAX_RESPONSE_LEN);

    let first = handle_fetched(&mut cache, &request(uri, None), body);
    assert_eq!(first.data.len(), MAX_RESPONSE_LEN);
    assert_eq!(first.next, Some(MAX_RESPONSE_LEN));
    assert_eq!(first.data, encoded[..MAX_RESPONSE_LEN]);

    let second = handle_continuation(&mut cache, &request(uri, first.next))
        .expect("the continuation must hit the cached body");
    assert_eq!(second.data, encoded[MAX_RESPONSE_LEN..]);
    assert_eq!(second.next, None);

    let mut rebuilt = first.data;
    rebuilt.push_str(&second.data);
    assert_eq!(rebuilt, encoded);

    // The entry was consumed by the continuation: a third call with the
    // same offset finds nothing and would have to re-fetch.
    assert!(handle_continuation(&mut cache, &request(uri, Some(MAX_RESPONSE_LEN))).is_none());
}
