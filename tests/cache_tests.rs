use spot::cache::{chars_of, glob_match, ResponseCache};
use spot::cached_client::{clear_user_cache, ApiError, CachingApiClient, RequestStep};

#[test]
fn get_before_expiry_returns_payload() {
    let mut c = ResponseCache::new();
    c.put("k", vec![1, 2, 3], 10, 100);
    assert_eq!(c.get("k", 100), Some(vec![1, 2, 3]));
    assert_eq!(c.get("k", 109), Some(vec![1, 2, 3]));
}

#[test]
fn get_at_expiry_returns_none() {
    let mut c = ResponseCache::new();
    c.put("k", vec![7], 10, 100);
    assert_eq!(c.get("k", 110), None);
    assert_eq!(c.get("k", 105), None);
}

#[test]
fn missing_key_is_a_miss() {
    let mut c = ResponseCache::new();
    assert_eq!(c.get("nothing", 0), None);
}

#[test]
fn put_overwrites() {
    let mut c = ResponseCache::new();
    c.put("k", vec![1], 5, 0);
    c.put("k", vec![2], 50, 10);
    assert_eq!(c.get("k", 20), Some(vec![2]));
}

#[test]
fn put_leaves_other_keys() {
    let mut c = ResponseCache::new();
    c.put("a", vec![1], 5, 0);
    c.put("b", vec![2], 50, 0);
    assert_eq!(c.get("a", 1), Some(vec![1]));
    assert_eq!(c.get("b", 1), Some(vec![2]));
}

#[test]
fn clear_pattern_removes_matching_only() {
    let mut c = ResponseCache::new();
    c.put("spot/net/me/playlists", vec![1], 100, 0);
    c.put("spot/net/me/albums", vec![2], 100, 0);
    c.put("spot/net/albums/42", vec![3], 100, 0);
    c.clear_pattern("spot/net/me/*");
    assert_eq!(c.get("spot/net/me/playlists", 1), None);
    assert_eq!(c.get("spot/net/me/albums", 1), None);
    assert_eq!(c.get("spot/net/albums/42", 1), Some(vec![3]));
}

#[test]
fn clear_pattern_without_star_is_exact() {
    let mut c = ResponseCache::new();
    c.put("ab", vec![1], 100, 0);
    c.put("abc", vec![2], 100, 0);
    c.clear_pattern("ab");
    assert_eq!(c.get("ab", 1), None);
    assert_eq!(c.get("abc", 1), Some(vec![2]));
}

#[test]
fn glob_cases() {
    assert!(glob_match("*", ""));
    assert!(glob_match("*", "anything"));
    assert!(glob_match("a*c", "abbbc"));
    assert!(glob_match("a*c", "ac"));
    assert!(!glob_match("a*c", "acb"));
    assert!(glob_match("", ""));
    assert!(!glob_match("", "x"));
    assert!(!glob_match("abc", "ab"));
    assert!(glob_match("*/me/*", "spot/net/me/x"));
}

#[test]
fn chars_of_splits_text() {
    assert_eq!(chars_of("hé!"), vec!['h', 'é', '!']);
}

#[test]
fn second_request_joins_the_first() {
    let mut client = CachingApiClient::new();
    assert_eq!(client.request("fp", 0), RequestStep::Fetch);
    assert_eq!(client.request("fp", 1), RequestStep::Join);
    assert_eq!(client.request("fp", 2), RequestStep::Join);
    assert_eq!(client.request("other", 2), RequestStep::Fetch);
}

#[test]
fn success_is_cached_for_later_requests() {
    let mut client = CachingApiClient::new();
    assert_eq!(client.request("fp", 0), RequestStep::Fetch);
    client.complete("fp", &Ok(vec![9, 9]), 60, 5);
    assert_eq!(client.request("fp", 10), RequestStep::Hit(vec![9, 9]));
    assert_eq!(client.request("fp", 65), RequestStep::Fetch);
}

#[test]
fn failure_is_not_cached() {
    let mut client = CachingApiClient::new();
    assert_eq!(client.request("fp", 0), RequestStep::Fetch);
    client.complete("fp", &Err(ApiError::Network), 60, 1);
    assert_eq!(client.request("fp", 2), RequestStep::Fetch);
}

#[test]
fn clear_user_cache_forces_refetch() {
    let mut client = CachingApiClient::new();
    assert_eq!(client.request("spot/net/me/tracks", 0), RequestStep::Fetch);
    client.complete("spot/net/me/tracks", &Ok(vec![1]), 100, 0);
    assert_eq!(client.request("spot/net/albums/1", 0), RequestStep::Fetch);
    client.complete("spot/net/albums/1", &Ok(vec![2]), 100, 0);
    clear_user_cache(&mut client);
    assert_eq!(client.request("spot/net/me/tracks", 1), RequestStep::Fetch);
    assert_eq!(client.request("spot/net/albums/1", 1), RequestStep::Hit(vec![2]));
}
