use arkavo_protocol::ws_url::{http_to_ws_url, replace_all_str};

#[test]
fn test_http_to_ws_url_conversion() {
    assert_eq!(http_to_ws_url("http://localhost:8080"), "ws://localhost:8080/ws");
    assert_eq!(http_to_ws_url("https://localhost:8080"), "wss://localhost:8080/ws");
    assert_eq!(http_to_ws_url("http://localhost:8080/"), "ws://localhost:8080/ws");
    assert_eq!(http_to_ws_url("http://localhost:8080/ws"), "ws://localhost:8080/ws");
}

#[test]
fn urls_without_scheme_get_one() {
    assert_eq!(http_to_ws_url("peer:9000//"), "ws://peer:9000/ws");
    assert_eq!(http_to_ws_url("https://a/?next=https://b"), "wss://a/?next=wss://b/ws");
}

#[test]
fn replace_matches_std() {
    for (s, p, r) in [("aaa", "aa", "b"), ("abcabc", "bc", "XY"), ("", "x", "y"), ("xyz", "q", "w")] {
        assert_eq!(replace_all_str(s, p, r), s.replace(p, r));
    }
}
