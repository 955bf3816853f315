//! URLs and hosts: domain block patterns, relay endpoint inference, client
//! addresses from proxy headers, and search options.
use vstd::prelude::*;
use crate::text::{trim, lower, trim_end_char, starts_with, ends_with, str_chars, trim_chars, lower_chars, trim_end_char_chars, starts_with_chars, ends_with_chars, chars_eq, slice_chars, string_from_chars, append_chars};

verus! {

/// `s` up to its first `c` (`split(c).next()`).
pub open spec fn before_char(s: Seq<char>, c: char) -> Seq<char>
    decreases s.len(),
{
    if s.len() == 0 {
        s
    } else if s[0] == c {
        Seq::empty()
    } else {
        seq![s[0]] + before_char(s.drop_first(), c)
    }
}

/// The length of `before_char(s, c)`.
pub open spec fn first_index_of(s: Seq<char>, c: char) -> int
    decreases s.len(),
{
    if s.len() == 0 {
        0
    } else if s[0] == c {
        0
    } else {
        1 + first_index_of(s.drop_first(), c)
    }
}

pub proof fn lemma_before_char(s: Seq<char>, c: char)
    ensures
        0 <= first_index_of(s, c) <= s.len(),
        before_char(s, c) == s.take(first_index_of(s, c)),
        forall|j: int| 0 <= j < first_index_of(s, c) ==> s[j] != c,
        first_index_of(s, c) < s.len() ==> s[first_index_of(s, c)] == c,
    decreases s.len(),
{
    if s.len() > 0 && s[0] != c {
        let d = s.drop_first();
        lemma_before_char(d, c);
        assert(before_char(s, c) =~= s.take(first_index_of(s, c)));
        assert forall|j: int| 0 <= j < first_index_of(s, c) implies s[j] != c by {
            if j > 0 {
                assert(s[j] == d[j - 1]);
            }
        }
        if first_index_of(s, c) < s.len() {
            assert(s[first_index_of(s, c)] == d[first_index_of(d, c)]);
        }
    } else if s.len() > 0 {
        assert(before_char(s, c) =~= s.take(0));
    } else {
        assert(s.take(0) =~= s);
    }
}

/// The characters of `s` before its first `c`.
pub fn before_char_chars(s: &Vec<char>, c: char) -> (r: Vec<char>)
    ensures
        r@ == before_char(s@, c),
{
    proof {
        lemma_before_char(s@, c);
    }
    let mut i: usize = 0;
    while i < s.len() && s[i] != c
        invariant
            i <= s.len(),
            i <= first_index_of(s@, c),
            0 <= first_index_of(s@, c) <= s@.len(),
            forall|j: int| 0 <= j < first_index_of(s@, c) ==> s@[j] != c,
            first_index_of(s@, c) < s@.len() ==> s@[first_index_of(s@, c)] == c,
        decreases s.len() - i,
    {
        i += 1;
    }
    slice_chars(s, 0, i)
}

/// Whether `host` falls under a blocked-domain pattern: `example.com`
/// matches that host only; `*.example.com` and `.example.com` match the
/// domain and all its subdomains. Both sides are trimmed and compared
/// without ASCII case; trailing dots of the pattern are ignored, and a blank
/// pattern matches nothing.
pub open spec fn spec_domain_matches(host: Seq<char>, pattern: Seq<char>) -> bool {
    let h = lower(trim(host));
    let p = lower(trim_end_char(trim(pattern), '.'));
    if p.len() == 0 {
        false
    } else if starts_with(p, "*."@) {
        let suffix = p.skip(2);
        h == suffix || ends_with(h, "."@ + suffix)
    } else if starts_with(p, "."@) {
        let suffix = p.skip(1);
        h == suffix || ends_with(h, "."@ + suffix)
    } else {
        h == p
    }
}

fn suffix_match(h: &Vec<char>, suffix: &Vec<char>) -> (r: bool)
    ensures
        r == (h@ == suffix@ || ends_with(h@, "."@ + suffix@)),
{
    if chars_eq(h, suffix) {
        return true;
    }
    let mut dotted = str_chars(".");
    append_chars(&mut dotted, suffix);
    ends_with_chars(h, &dotted)
}

/// Whether a host matches a blocked-domain pattern.
pub fn domain_matches(host: &str, pattern: &str) -> (r: bool)
    ensures
        r == spec_domain_matches(host@, pattern@),
{
    let h = lower_chars(&trim_chars(&str_chars(host)));
    let p = lower_chars(&trim_end_char_chars(&trim_chars(&str_chars(pattern)), '.'));
    if p.len() == 0 {
        return false;
    }
    let star = str_chars("*.");
    let dot = str_chars(".");
    if starts_with_chars(&p, &star) {
        proof {
            assert(star@.len() == 2) by {
                reveal_strlit("*.");
            }
        }
        let suffix = slice_chars(&p, 2, p.len());
        assert(suffix@ =~= p@.skip(2));
        return suffix_match(&h, &suffix);
    }
    if starts_with_chars(&p, &dot) {
        proof {
            assert(dot@.len() == 1) by {
                reveal_strlit(".");
            }
        }
        let suffix = slice_chars(&p, 1, p.len());
        assert(suffix@ =~= p@.skip(1));
        return suffix_match(&h, &suffix);
    }
    chars_eq(&h, &p)
}

/// The WebSocket URL of a relay from its HTTP base: `https://` becomes
/// `wss://`, `http://` becomes `ws://`, trailing slashes dropped.
pub open spec fn spec_infer_ws_from_base(base: Seq<char>) -> Option<Seq<char>> {
    let b = trim(base);
    if b.len() == 0 {
        None
    } else if starts_with(b, "https://"@) {
        Some("wss://"@ + trim_end_char(b.skip(8), '/'))
    } else if starts_with(b, "http://"@) {
        Some("ws://"@ + trim_end_char(b.skip(7), '/'))
    } else {
        None
    }
}

/// The WebSocket endpoint of a relay whose HTTP base is `base`.
pub fn infer_ws_from_base(base: &str) -> (r: Option<String>)
    ensures
        match r {
            Some(s) => spec_infer_ws_from_base(base@) == Some(s@),
            None => spec_infer_ws_from_base(base@) is None,
        },
{
    let b = trim_chars(&str_chars(base));
    if b.len() == 0 {
        return None;
    }
    let https = str_chars("https://");
    let http = str_chars("http://");
    proof {
        reveal_strlit("https://");
        reveal_strlit("http://");
    }
    if starts_with_chars(&b, &https) {
        let rest = slice_chars(&b, 8, b.len());
        assert(rest@ =~= b@.skip(8));
        let mut out = str_chars("wss://");
        append_chars(&mut out, &trim_end_char_chars(&rest, '/'));
        return Some(string_from_chars(&out));
    }
    if starts_with_chars(&b, &http) {
        let rest = slice_chars(&b, 7, b.len());
        assert(rest@ =~= b@.skip(7));
        let mut out = str_chars("ws://");
        append_chars(&mut out, &trim_end_char_chars(&rest, '/'));
        return Some(string_from_chars(&out));
    }
    None
}

/// Why a relay WebSocket URL gives no HTTP base.
#[derive(PartialEq, Eq, Structural, Clone, Copy, Debug)]
pub enum RelayWsError {
    /// The URL is blank.
    Empty,
    /// The URL has no `ws://`, `wss://`, `http://` or `https://` scheme.
    BadScheme,
    /// Nothing names the host.
    MissingHost,
}

impl RelayWsError {
    /// The error's message.
    pub fn message(&self) -> (r: &'static str)
        ensures
            r@ == match self {
                RelayWsError::Empty => "relay_ws empty and public_base_url not provided"@,
                RelayWsError::BadScheme => "relay_ws must start with ws:// or wss://"@,
                RelayWsError::MissingHost => "relay_ws missing host"@,
            },
    {
        match self {
            RelayWsError::Empty => "relay_ws empty and public_base_url not provided",
            RelayWsError::BadScheme => "relay_ws must start with ws:// or wss://",
            RelayWsError::MissingHost => "relay_ws missing host",
        }
    }
}

/// The HTTP scheme for a relay URL and the rest after its scheme.
pub open spec fn relay_scheme(w: Seq<char>) -> Option<(Seq<char>, Seq<char>)> {
    if starts_with(w, "wss://"@) {
        Some(("https://"@, w.skip(6)))
    } else if starts_with(w, "ws://"@) {
        Some(("http://"@, w.skip(5)))
    } else if starts_with(w, "https://"@) {
        Some(("https://"@, w.skip(8)))
    } else if starts_with(w, "http://"@) {
        Some(("http://"@, w.skip(7)))
    } else {
        None
    }
}

/// The HTTP base of a relay from its WebSocket URL: the matching HTTP
/// scheme and the host (with port), path dropped.
pub open spec fn spec_infer_http_base(relay_ws: Seq<char>) -> Result<Seq<char>, RelayWsError> {
    let w = trim(relay_ws);
    if w.len() == 0 {
        Err(RelayWsError::Empty)
    } else {
        match relay_scheme(w) {
            None => Err(RelayWsError::BadScheme),
            Some((scheme, rest)) => {
                let host_port = trim(before_char(rest, '/'));
                if host_port.len() == 0 {
                    Err(RelayWsError::MissingHost)
                } else {
                    Ok(scheme + trim_end_char(host_port, '/'))
                }
            },
        }
    }
}

/// The relay's HTTP base URL, derived from its WebSocket URL.
pub fn infer_http_base_from_relay_ws(relay_ws: &str) -> (r: Result<String, RelayWsError>)
    ensures
        match r {
            Ok(s) => spec_infer_http_base(relay_ws@) == Ok::<Seq<char>, RelayWsError>(s@),
            Err(e) => spec_infer_http_base(relay_ws@) == Err::<Seq<char>, RelayWsError>(e),
        },
{
    let w = trim_chars(&str_chars(relay_ws));
    if w.len() == 0 {
        return Err(RelayWsError::Empty);
    }
    proof {
        reveal_strlit("wss://");
        reveal_strlit("ws://");
        reveal_strlit("https://");
        reveal_strlit("http://");
    }
    let scheme: &str;
    let skip: usize;
    if starts_with_chars(&w, &str_chars("wss://")) {
        scheme = "https://";
        skip = 6;
    } else if starts_with_chars(&w, &str_chars("ws://")) {
        scheme = "http://";
        skip = 5;
    } else if starts_with_chars(&w, &str_chars("https://")) {
        scheme = "https://";
        skip = 8;
    } else if starts_with_chars(&w, &str_chars("http://")) {
        scheme = "http://";
        skip = 7;
    } else {
        return Err(RelayWsError::BadScheme);
    }
    let rest = slice_chars(&w, skip, w.len());
    assert(rest@ =~= w@.skip(skip as int));
    let host_port = trim_chars(&before_char_chars(&rest, '/'));
    if host_port.len() == 0 {
        return Err(RelayWsError::MissingHost);
    }
    let mut out = str_chars(scheme);
    append_chars(&mut out, &trim_end_char_chars(&host_port, '/'));
    Ok(string_from_chars(&out))
}

/// The client address from proxy headers: the first entry of
/// `X-Forwarded-For`, else `X-Real-IP`, each trimmed and non-blank.
pub open spec fn spec_client_ip(xff: Option<Seq<char>>, real_ip: Option<Seq<char>>) -> Option<Seq<char>> {
    let first = match xff {
        Some(v) => trim(before_char(v, ',')),
        None => Seq::empty(),
    };
    if first.len() > 0 {
        Some(first)
    } else {
        match real_ip {
            Some(v) => if trim(v).len() > 0 { Some(trim(v)) } else { None },
            None => None,
        }
    }
}

pub open spec fn opt_view(o: Option<&str>) -> Option<Seq<char>> {
    match o {
        Some(s) => Some(s@),
        None => None,
    }
}

/// The client's address as proxies report it; the arguments are the
/// `X-Forwarded-For` and `X-Real-IP` header values, when readable.
pub fn client_ip_from_headers(xff: Option<&str>, real_ip: Option<&str>) -> (r: Option<String>)
    ensures
        match r {
            Some(s) => spec_client_ip(opt_view(xff), opt_view(real_ip)) == Some(s@),
            None => spec_client_ip(opt_view(xff), opt_view(real_ip)) is None,
        },
{
    if let Some(v) = xff {
        let first = trim_chars(&before_char_chars(&str_chars(v), ','));
        if first.len() > 0 {
            return Some(string_from_chars(&first));
        }
    }
    match real_ip {
        Some(v) => {
            let t = trim_chars(&str_chars(v));
            if t.len() > 0 {
                Some(string_from_chars(&t))
            } else {
                None
            }
        },
        None => None,
    }
}

/// The search source asked for: `local` or `relay`, anything else `all`.
pub open spec fn spec_search_source(input: Seq<char>) -> Seq<char> {
    let k = lower(trim(input));
    if k == "local"@ {
        "local"@
    } else if k == "relay"@ {
        "relay"@
    } else {
        "all"@
    }
}

/// Normalizes a search source (case and surrounding space ignored). For
/// these ASCII words ASCII case folding decides as Unicode lowercasing does.
pub fn normalize_search_source(input: &str) -> (r: String)
    ensures
        r@ == spec_search_source(input@),
{
    let k = lower_chars(&trim_chars(&str_chars(input)));
    if chars_eq(&k, &str_chars("local")) {
        "local".to_owned()
    } else if chars_eq(&k, &str_chars("relay")) {
        "relay".to_owned()
    } else {
        "all".to_owned()
    }
}

/// The search consistency asked for: `best`, anything else `full`.
pub open spec fn spec_search_consistency(input: Seq<char>) -> Seq<char> {
    if lower(trim(input)) == "best"@ {
        "best"@
    } else {
        "full"@
    }
}

/// Normalizes a search consistency (case and surrounding space ignored).
pub fn normalize_search_consistency(input: &str) -> (r: String)
    ensures
        r@ == spec_search_consistency(input@),
{
    let k = lower_chars(&trim_chars(&str_chars(input)));
    if chars_eq(&k, &str_chars("best")) {
        "best".to_owned()
    } else {
        "full".to_owned()
    }
}

} // verus!
