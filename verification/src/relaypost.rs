//! Signed ActivityPub deliveries sent through the relay or a peer: a POST to
//! a remote inbox, signed with the node's key, carried as a relayed request.
use vstd::prelude::*;
use crate::httpsig::{sign_request_at, spec_sign_request, headers_view, added_view, b64_encode, b64_encode_of,
    HeaderV, SignRequestError};
use crate::relayenc::{RelayHttpRequest, RelayRequestV, pairs_view};
use crate::text::{str_chars, append_str, string_from_chars};

verus! {

/// The path, query (without `?`) and authority of a URI, when the text
/// parses as one.
pub uninterp spec fn uri_parts_of(s: Seq<char>) -> Option<(Seq<char>, Option<Seq<char>>, Option<Seq<char>>)>;

/// `str::parse::<http::Uri>`, then `path`, `query` and `authority`.
#[verifier::external_body]
fn parse_uri(s: &str) -> (r: Option<(String, Option<String>, Option<String>)>)
    ensures
        match r {
            Some((p, q, a)) => uri_parts_of(s@) == Some((p@, match q { Some(x) => Some(x@), None => None },
                match a { Some(x) => Some(x@), None => None })),
            None => uri_parts_of(s@) is None,
        },
{
    let u: http::Uri = s.parse().ok()?;
    Some((u.path().to_owned(), u.query().map(|q| q.to_owned()), u.authority().map(|a| a.as_str().to_owned())))
}

/// Why a delivery cannot be built.
#[derive(PartialEq, Eq, Structural, Clone, Copy, Debug)]
pub enum RelayPostError {
    /// The inbox URL is not a URI.
    InvalidUrl,
    /// The request cannot be signed.
    Signing(SignRequestError),
}

/// The media type of ActivityPub documents.
pub open spec fn activity_json() -> Seq<char> {
    "application/activity+json"@
}

/// The headers a delivery starts with: `accept` and `content-type`.
pub open spec fn post_headers() -> Seq<HeaderV> {
    seq![("accept"@, Some(activity_json())), ("content-type"@, Some(activity_json()))]
}

/// The headers a delivery signs.
pub open spec fn post_signed() -> Seq<Seq<char>> {
    seq!["(request-target)"@, "host"@, "date"@, "digest"@, "content-type"@]
}

/// The relayed request of a signed delivery: a POST to the path and query
/// (`?` and the query, or nothing), with the starting headers, those signing
/// added and the `signature` header, and the body in base64.
pub open spec fn post_request(id: Seq<char>, path: Seq<char>, query: Option<Seq<char>>, body: Seq<u8>,
    added: Seq<(Seq<char>, Seq<char>)>, signature: Seq<char>) -> RelayRequestV {
    RelayRequestV {
        id,
        method: "POST"@,
        path,
        query: match query {
            Some(q) => "?"@ + q,
            None => Seq::empty(),
        },
        headers: seq![("accept"@, activity_json()), ("content-type"@, activity_json())] + added + seq![("signature"@, signature)],
        body_b64: b64_encode_of(body),
    }
}

/// A signed delivery of `body` to the inbox at `url`, signed at `now_secs`.
pub open spec fn spec_relay_post(id: Seq<char>, private_pem: Seq<char>, key_id: Seq<char>, url: Seq<char>, body: Seq<u8>,
    now_secs: u64) -> Result<RelayRequestV, RelayPostError> {
    match uri_parts_of(url) {
        None => Err(RelayPostError::InvalidUrl),
        Some((path, query, authority)) => match spec_sign_request(private_pem, key_id, "POST"@, path, query, authority,
            post_headers(), body, post_signed(), now_secs) {
            Err(e) => Err(RelayPostError::Signing(e)),
            Ok((added, signature)) => Ok(post_request(id, path, query, body, added, signature)),
        },
    }
}

pub open spec fn post_view(r: Result<RelayHttpRequest, RelayPostError>) -> Result<RelayRequestV, RelayPostError> {
    match r {
        Ok(q) => Ok(q@),
        Err(e) => Err(e),
    }
}

/// Builds the signed delivery of `body` to the inbox at `inbox_url`, signed
/// at `now_secs` (see `spec_relay_post`).
pub fn build_signed_post_relay_http_request_at(id: String, private_key_pem: &str, key_id: &str, inbox_url: &str,
    body: &[u8], now_secs: u64) -> (r: Result<RelayHttpRequest, RelayPostError>)
    requires
        now_secs < 253402300800,
    ensures
        post_view(r) == spec_relay_post(id@, private_key_pem@, key_id@, inbox_url@, body@, now_secs),
{
    let (path, query, authority) = match parse_uri(inbox_url) {
        Some(parts) => parts,
        None => return Err(RelayPostError::InvalidUrl),
    };
    let mut headers: Vec<(String, Option<String>)> = Vec::new();
    headers.push(("accept".to_string(), Some("application/activity+json".to_string())));
    headers.push(("content-type".to_string(), Some("application/activity+json".to_string())));
    let mut signed: Vec<String> = Vec::new();
    signed.push("(request-target)".to_string());
    signed.push("host".to_string());
    signed.push("date".to_string());
    signed.push("digest".to_string());
    signed.push("content-type".to_string());
    proof {
        assert(headers_view(headers@) =~= post_headers());
        assert(crate::order::views(signed@) =~= post_signed());
    }
    let q: Option<&str> = match &query {
        Some(x) => Some(x.as_str()),
        None => None,
    };
    let a: Option<&str> = match &authority {
        Some(x) => Some(x.as_str()),
        None => None,
    };
    let rs = match sign_request_at(private_key_pem, key_id, "POST", path.as_str(), q, a, &headers, body, &signed, now_secs) {
        Ok(rs) => rs,
        Err(e) => return Err(RelayPostError::Signing(e)),
    };
    let mut out: Vec<(String, String)> = Vec::new();
    out.push(("accept".to_string(), "application/activity+json".to_string()));
    out.push(("content-type".to_string(), "application/activity+json".to_string()));
    let mut i: usize = 0;
    while i < rs.added.len()
        invariant
            i <= rs.added.len(),
            pairs_view(out@) == seq![("accept"@, activity_json()), ("content-type"@, activity_json())]
                + added_view(rs.added@).take(i as int),
        decreases rs.added.len() - i,
    {
        let ghost before = out@;
        out.push((rs.added[i].0.clone(), rs.added[i].1.clone()));
        proof {
            assert(pairs_view(out@) =~= pairs_view(before).push((rs.added@[i as int].0@, rs.added@[i as int].1@)));
            assert(added_view(rs.added@).take(i + 1) =~= added_view(rs.added@).take(i as int).push(added_view(rs.added@)[i as int]));
        }
        i += 1;
    }
    let ghost before = out@;
    out.push(("signature".to_string(), rs.signature));
    proof {
        assert(added_view(rs.added@).take(i as int) =~= added_view(rs.added@));
        assert(pairs_view(out@) =~= pairs_view(before).push(("signature"@, rs.signature@)));
    }
    let query_text = match &query {
        Some(x) => {
            let mut v = str_chars("?");
            append_str(&mut v, x.as_str());
            string_from_chars(&v)
        },
        None => String::new(),
    };
    let r = RelayHttpRequest { id, method: "POST".to_string(), path, query: query_text, headers: out, body_b64: b64_encode(body) };
    proof {
        assert(r@.headers =~= post_request(id@, path@, crate::urls::opt_view(q), body@, added_view(rs.added@), rs.signature@).headers);
    }
    Ok(r)
}

/// Builds the signed delivery of `body` to the inbox at `inbox_url`, signed
/// at the current time.
pub fn build_signed_post_relay_http_request(id: String, private_key_pem: &str, key_id: &str, inbox_url: &str,
    body: &[u8]) -> (r: Result<RelayHttpRequest, RelayPostError>)
    ensures
        match r {
            Err(RelayPostError::Signing(SignRequestError::ClockOutOfRange)) => true,
            _ => exists|now: u64| now < 253402300800
                && #[trigger] spec_relay_post(id@, private_key_pem@, key_id@, inbox_url@, body@, now) == post_view(r),
        },
{
    let now = crate::metrics::now_ms() / 1000;
    if now >= 253402300800 {
        return Err(RelayPostError::Signing(SignRequestError::ClockOutOfRange));
    }
    build_signed_post_relay_http_request_at(id, private_key_pem, key_id, inbox_url, body, now)
}

} // verus!
