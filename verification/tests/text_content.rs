use fedi3_core::content::{looks_like_html, html_escape_with_breaks, text_to_html, extract_hashtags, from_hex, url_decode};
use fedi3_core::urls::{domain_matches, infer_ws_from_base, infer_http_base_from_relay_ws, RelayWsError, client_ip_from_headers,
    normalize_search_source, normalize_search_consistency};
use fedi3_core::text::{trim_str, u64_to_string, i64_to_string};
use fedi3_core::order::sort_dedup;

#[test]
fn text_to_html_escapes_and_breaks_lines() {
    assert_eq!(text_to_html("  a & b <c>\r\nd'e\"  "), "<p>a &amp; b &lt;c&gt;<br>d&#39;e&quot;</p>");
    assert_eq!(text_to_html("one\rtwo"), "<p>one<br>two</p>");
    assert_eq!(text_to_html("   "), "");
}

#[test]
fn html_escape_keeps_other_text() {
    assert_eq!(html_escape_with_breaks("x<y>\nz"), "x&lt;y&gt;<br>z");
}

#[test]
fn looks_like_html_needs_both_brackets() {
    assert!(looks_like_html(" <p>hi</p> "));
    assert!(!looks_like_html("a < b"));
    assert!(!looks_like_html("   "));
}

#[test]
fn hashtags_are_collected_once_in_order() {
    assert_eq!(extract_hashtags("#rust and #Verus_2 then #rust, #été #"), vec!["rust", "Verus_2", "été"]);
    assert!(extract_hashtags("no tags here").is_empty());
}

#[test]
fn url_decoding_of_plus_and_percent() {
    assert_eq!(url_decode("a+b%20c%2"), "a b c%2");
    assert_eq!(url_decode("%zz"), "%zz");
    assert_eq!(from_hex(b'f'), Some(15));
    assert_eq!(from_hex(b'G'), None);
}

#[test]
fn domain_patterns() {
    assert!(domain_matches("Example.COM", "example.com"));
    assert!(domain_matches("a.example.com", "*.example.com"));
    assert!(domain_matches("example.com", "*.example.com"));
    assert!(domain_matches("b.example.com", ".example.com."));
    assert!(!domain_matches("badexample.com", "*.example.com"));
    assert!(!domain_matches("example.com", "  "));
}

#[test]
fn relay_urls() {
    assert_eq!(infer_ws_from_base(" https://relay.example/ "), Some("wss://relay.example".to_string()));
    assert_eq!(infer_ws_from_base("http://r.example//"), Some("ws://r.example".to_string()));
    assert_eq!(infer_ws_from_base("ftp://r"), None);
    assert_eq!(infer_http_base_from_relay_ws("wss://relay.example:8443/ws/x").unwrap(), "https://relay.example:8443");
    assert_eq!(infer_http_base_from_relay_ws("ws://h/").unwrap(), "http://h");
    assert_eq!(infer_http_base_from_relay_ws("  ").unwrap_err(), RelayWsError::Empty);
    assert_eq!(infer_http_base_from_relay_ws("tcp://h").unwrap_err(), RelayWsError::BadScheme);
    assert_eq!(infer_http_base_from_relay_ws("wss:///path").unwrap_err(), RelayWsError::MissingHost);
}

#[test]
fn client_ip_prefers_forwarded_for() {
    assert_eq!(client_ip_from_headers(Some(" 1.2.3.4 , 5.6.7.8"), Some("9.9.9.9")), Some("1.2.3.4".to_string()));
    assert_eq!(client_ip_from_headers(Some(" ,x"), Some(" 9.9.9.9 ")), Some("9.9.9.9".to_string()));
    assert_eq!(client_ip_from_headers(None, None), None);
}

#[test]
fn search_options_normalize() {
    assert_eq!(normalize_search_source(" LOCAL "), "local");
    assert_eq!(normalize_search_source("Relay"), "relay");
    assert_eq!(normalize_search_source("x"), "all");
    assert_eq!(normalize_search_consistency("BEST"), "best");
    assert_eq!(normalize_search_consistency(""), "full");
}

#[test]
fn numbers_and_trim() {
    assert_eq!(u64_to_string(0), "0");
    assert_eq!(u64_to_string(1234567890), "1234567890");
    assert_eq!(i64_to_string(-42), "-42");
    assert_eq!(i64_to_string(i64::MIN), "-9223372036854775808");
    assert_eq!(trim_str("\t x y \n"), "x y");
}

#[test]
fn sort_dedup_sorts_and_removes_duplicates() {
    let v = vec!["b".to_string(), "a".to_string(), "b".to_string(), "ab".to_string()];
    assert_eq!(sort_dedup(v), vec!["a", "ab", "b"]);
}
