//! How Webull and Light Horse requests are signed and addressed.

use vstd::prelude::*;
use vstd::utf8::encode_utf8;
use crate::text::{owned, join_with, join_strings};
use crate::accounts::views;
use crate::encoding::{
    rfc3986_text, rfc3986_encode, hex_text, hex_lower, hex_upper, base64_text, base64_standard,
};
use crate::crypto::{
    md5_digest, md5_bytes, hmac_sha1_tag, hmac_sha1_bytes, hmac_sha256_tag, hmac_sha256_bytes,
};

verus! {

/// A key and its value, each percent-encoded, joined by `=`.
pub open spec fn encoded_pair(k: Seq<char>, v: Seq<char>) -> Seq<char> {
    rfc3986_text(encode_utf8(k)) + "="@ + rfc3986_text(encode_utf8(v))
}

/// Key and value pairs as plain text.
pub open spec fn pair_views(pairs: Seq<(String, String)>) -> Seq<(Seq<char>, Seq<char>)> {
    pairs.map_values(|p: (String, String)| (p.0@, p.1@))
}

/// Pairs encoded one by one and joined by `&`.
pub open spec fn encoded_pairs(pairs: Seq<(Seq<char>, Seq<char>)>) -> Seq<char> {
    join_with(pairs.map_values(|p: (Seq<char>, Seq<char>)| encoded_pair(p.0, p.1)), "&"@)
}

/// Encodes key and value pairs, in the order given, joined by `&`.
pub fn encode_pairs(pairs: &Vec<(String, String)>) -> (r: String)
    ensures
        r@ == encoded_pairs(pair_views(pairs@)),
{
    let ghost f = |p: (Seq<char>, Seq<char>)| encoded_pair(p.0, p.1);
    let mut parts: Vec<String> = Vec::new();
    let mut i: usize = 0;
    while i < pairs.len()
        invariant
            i <= pairs.len(),
            f == (|p: (Seq<char>, Seq<char>)| encoded_pair(p.0, p.1)),
            views(parts@) == pair_views(pairs@).take(i as int).map_values(f),
        decreases pairs.len() - i,
    {
        let ghost before = views(parts@);
        let mut t = rfc3986_encode(pairs[i].0.as_str());
        t.append("=");
        t.append(rfc3986_encode(pairs[i].1.as_str()).as_str());
        parts.push(t);
        assert(pair_views(pairs@)[i as int] == (pairs@[i as int].0@, pairs@[i as int].1@));
        assert(pair_views(pairs@).take(i + 1).map_values(f) =~= pair_views(pairs@).take(
            i as int,
        ).map_values(f).push(f(pair_views(pairs@)[i as int])));
        assert(views(parts@) =~= before.push(t@));
        i = i + 1;
    }
    assert(pair_views(pairs@).take(pairs.len() as int) =~= pair_views(pairs@));
    let r = join_strings(&parts, "&");
    assert(parts@.map_values(|p: String| p@) =~= views(parts@));
    r
}

/// The headers a Webull signature covers, sorted by name.
pub open spec fn webull_sign_headers(app_key: Seq<char>, timestamp: Seq<char>, nonce: Seq<char>) -> Seq<
    (Seq<char>, Seq<char>),
> {
    seq![
        ("app_key"@, app_key),
        ("host"@, "api.webull.com"@),
        ("nonce"@, nonce),
        ("sign_algorithm"@, "HMAC-SHA1"@),
        ("sign_version"@, "1.0"@),
        ("timestamp"@, timestamp),
    ]
}

/// The text a Webull request signs: the versioned path, the encoded
/// headers, the encoded query when there is one, and the body digest when
/// there is one, joined by `&`.
pub open spec fn webull_string_to_sign(
    path: Seq<char>,
    app_key: Seq<char>,
    timestamp: Seq<char>,
    nonce: Seq<char>,
    query: Seq<(Seq<char>, Seq<char>)>,
    digest: Option<Seq<char>>,
) -> Seq<char> {
    let parts = seq!["/v1"@ + path, encoded_pairs(webull_sign_headers(app_key, timestamp, nonce))]
        + (if query.len() > 0 {
        seq![encoded_pairs(query)]
    } else {
        Seq::<Seq<char>>::empty()
    }) + (match digest {
        Some(d) => seq![d],
        None => Seq::<Seq<char>>::empty(),
    });
    join_with(parts, "&"@)
}

/// Builds the text a Webull request signs; `query` comes sorted by key, as
/// the request keeps it.
pub fn webull_sign_text(
    path: &str,
    app_key: &str,
    timestamp: &str,
    nonce: &str,
    query: &Vec<(String, String)>,
    digest: &Option<String>,
) -> (r: String)
    ensures
        r@ == webull_string_to_sign(
            path@,
            app_key@,
            timestamp@,
            nonce@,
            pair_views(query@),
            match digest {
                Some(d) => Some(d@),
                None => None,
            },
        ),
{
    let mut headers: Vec<(String, String)> = Vec::new();
    headers.push((owned("app_key"), owned(app_key)));
    headers.push((owned("host"), owned("api.webull.com")));
    headers.push((owned("nonce"), owned(nonce)));
    headers.push((owned("sign_algorithm"), owned("HMAC-SHA1")));
    headers.push((owned("sign_version"), owned("1.0")));
    headers.push((owned("timestamp"), owned(timestamp)));
    assert(pair_views(headers@) =~= webull_sign_headers(app_key@, timestamp@, nonce@));
    let mut sign_path = owned("/v1");
    sign_path.append(path);
    let mut parts: Vec<String> = Vec::new();
    parts.push(sign_path);
    parts.push(encode_pairs(&headers));
    if query.len() > 0 {
        parts.push(encode_pairs(query));
    }
    match digest {
        Some(d) => parts.push(d.clone()),
        None => {},
    }
    let ghost expected = seq![
        "/v1"@ + path@,
        encoded_pairs(webull_sign_headers(app_key@, timestamp@, nonce@)),
    ] + (if query@.len() > 0 {
        seq![encoded_pairs(pair_views(query@))]
    } else {
        Seq::<Seq<char>>::empty()
    }) + (match digest {
        Some(d) => seq![d@],
        None => Seq::<Seq<char>>::empty(),
    });
    assert(parts@.map_values(|p: String| p@) =~= expected);
    join_strings(&parts, "&")
}

/// The digest a Webull request carries for its JSON body: upper-case
/// hexadecimal MD5, or none for an empty body or `{}`.
pub open spec fn webull_body_digest(json: Seq<char>) -> Option<Seq<char>> {
    if json.len() == 0 || json == "{}"@ {
        None
    } else {
        Some(hex_text(md5_digest(encode_utf8(json)), true))
    }
}

/// Computes the body digest of a Webull request from its JSON text.
pub fn webull_body_digest_text(json: &str) -> (r: Option<String>)
    ensures
        match webull_body_digest(json@) {
            Some(d) => r matches Some(t) && t@ == d,
            None => r is None,
        },
{
    if json.is_empty() || crate::text::str_eq(json, "{}") {
        return None;
    }
    let digest = md5_bytes(json.as_bytes());
    Some(hex_upper(digest.as_slice()))
}

/// A Webull signature: base64 of the HMAC-SHA1 of the signed text, keyed by
/// the secret followed by `&`.
pub open spec fn webull_signature_of(string_to_sign: Seq<char>, secret: Seq<char>) -> Seq<char> {
    base64_text(hmac_sha1_tag(encode_utf8(secret + "&"@), encode_utf8(string_to_sign)))
}

/// Signs a Webull request's text with the app secret.
pub fn webull_signature(string_to_sign: &str, secret: &str) -> (r: String)
    ensures
        r@ == webull_signature_of(string_to_sign@, secret@),
        r@.len() == 28,
        r@.last() == '=',
{
    let mut key = owned(secret);
    key.append("&");
    let tag = hmac_sha1_bytes(key.as_str().as_bytes(), string_to_sign.as_bytes());
    proof {
        crate::encoding::lemma_base64_shape(tag@);
    }
    base64_standard(tag.as_slice())
}

/// The address of a Webull request: the versioned path, then `?` and the
/// encoded query when there is one.
pub fn webull_url(path: &str, query: &Vec<(String, String)>) -> (r: String)
    ensures
        r@ == "https://api.webull.com/v1"@ + path@ + (if query@.len() > 0 {
            "?"@ + encoded_pairs(pair_views(query@))
        } else {
            Seq::<char>::empty()
        }),
{
    let mut r = owned("https://api.webull.com/v1");
    r.append(path);
    if query.len() > 0 {
        r.append("?");
        r.append(encode_pairs(query).as_str());
    }
    r
}

/// The text `str::to_uppercase` gives for `s`.
pub uninterp spec fn upper_text(s: Seq<char>) -> Seq<char>;

/// Upper-cases a text with `str::to_uppercase`; the contract names the
/// result.
#[verifier::external_body]
pub(crate) fn to_upper(s: &str) -> (r: String)
    ensures
        r@ == upper_text(s@),
{
    s.to_uppercase()
}

/// The path of a Light Horse request under the API's prefix.
pub open spec fn lighthorse_request_path(rel_path: Seq<char>) -> Seq<char> {
    "/open-api/lighthorse/v1"@ + rel_path
}

/// The text a Light Horse request signs: the upper-cased method, the path,
/// the query, the key, timestamp and nonce headers, and the lower-case
/// hexadecimal MD5 of the body, one per line.
pub open spec fn lighthorse_string_to_sign(
    method: Seq<char>,
    rel_path: Seq<char>,
    query: Seq<char>,
    api_key: Seq<char>,
    timestamp: Seq<char>,
    nonce: Seq<char>,
    body: Seq<char>,
) -> Seq<char> {
    upper_text(method) + "\n"@ + lighthorse_request_path(rel_path) + "\n"@ + query
        + "\nx-trade-apikey:"@ + api_key + "\nx-trade-timestamp:"@ + timestamp
        + "\nx-trade-nonce:"@ + nonce + "\n"@ + hex_text(md5_digest(encode_utf8(body)), false)
}

/// A Light Horse signature: base64 of the lower-case hexadecimal
/// HMAC-SHA256 of the signed text under the secret.
pub open spec fn lighthorse_signature_of(string_to_sign: Seq<char>, secret: Seq<char>) -> Seq<char> {
    base64_text(
        encode_utf8(hex_text(hmac_sha256_tag(encode_utf8(secret), encode_utf8(string_to_sign)), false)),
    )
}

/// Builds the text a Light Horse request signs.
pub fn lighthorse_sign_text(
    method: &str,
    rel_path: &str,
    query: &str,
    api_key: &str,
    timestamp: &str,
    nonce: &str,
    body: &str,
) -> (r: String)
    ensures
        r@ == lighthorse_string_to_sign(
            method@,
            rel_path@,
            query@,
            api_key@,
            timestamp@,
            nonce@,
            body@,
        ),
{
    let digest = md5_bytes(body.as_bytes());
    let body_hash = hex_lower(digest.as_slice());
    let mut r = to_upper(method);
    r.append("\n/open-api/lighthorse/v1");
    r.append(rel_path);
    r.append("\n");
    r.append(query);
    r.append("\nx-trade-apikey:");
    r.append(api_key);
    r.append("\nx-trade-timestamp:");
    r.append(timestamp);
    r.append("\nx-trade-nonce:");
    r.append(nonce);
    r.append("\n");
    r.append(body_hash.as_str());
    proof {
        reveal_strlit("\n/open-api/lighthorse/v1");
        reveal_strlit("/open-api/lighthorse/v1");
        reveal_strlit("\n");
    }
    assert(r@ =~= lighthorse_string_to_sign(
        method@,
        rel_path@,
        query@,
        api_key@,
        timestamp@,
        nonce@,
        body@,
    ));
    r
}

/// Signs a Light Horse request's text with the API secret.
pub fn lighthorse_signature(string_to_sign: &str, secret: &str) -> (r: String)
    ensures
        r@ == lighthorse_signature_of(string_to_sign@, secret@),
{
    let tag = hmac_sha256_bytes(secret.as_bytes(), string_to_sign.as_bytes());
    let hex = hex_lower(tag.as_slice());
    base64_standard(hex.as_str().as_bytes())
}

/// The address of a Light Horse request, with `?` and the query when there
/// is one.
pub fn lighthorse_url(rel_path: &str, query: &str) -> (r: String)
    ensures
        r@ == "https://interface.lighthorse.io"@ + lighthorse_request_path(rel_path@) + (if query@.len()
            > 0 {
            "?"@ + query@
        } else {
            Seq::<char>::empty()
        }),
{
    let mut r = owned("https://interface.lighthorse.io/open-api/lighthorse/v1");
    r.append(rel_path);
    if !query.is_empty() {
        r.append("?");
        r.append(query);
    }
    proof {
        reveal_strlit("https://interface.lighthorse.io/open-api/lighthorse/v1");
        reveal_strlit("https://interface.lighthorse.io");
        reveal_strlit("/open-api/lighthorse/v1");
    }
    assert(r@ =~= "https://interface.lighthorse.io"@ + lighthorse_request_path(rel_path@) + (if query@.len()
        > 0 {
        "?"@ + query@
    } else {
        Seq::<char>::empty()
    }));
    r
}

} // verus!
