//! HTTP request plumbing shared by the clients, and the trusted shims to
//! outside code (URL validation and UTF-8 string construction).

use crate::error::Error;
use crate::error::ErrorKind;
use crate::textenc::lemma_ascii_bytes_utf8;
use crate::textenc::lemma_pct_bytes_ascii;
use crate::textenc::pct_bytes;
use crate::textenc::push_pct;
use vstd::prelude::*;
use vstd::string::StringExecFns;
use vstd::utf8::decode_utf8;
use vstd::utf8::encode_utf8;
use vstd::utf8::valid_utf8;

verus! {

/// The HTTP methods the API uses.
#[derive(Debug, Clone, Copy, PartialEq, Eq, Structural)]
pub enum HTTPMethod {
    GET,
    POST,
    DELETE,
}

/// A fully prepared HTTP request.  The caller performs the exchange over its
/// own transport and hands the response status and body back to the library.
#[derive(Debug, Clone)]
pub struct HttpRequest {
    pub method: HTTPMethod,
    pub url: String,
    pub headers: Vec<(String, String)>,
    pub body: Option<Vec<u8>>,
}

/// Whether `url::Url::parse` accepts `s`; a function of `s` alone.
pub uninterp spec fn url_well_formed(s: Seq<char>) -> bool;

/// Relies on `url::Url::parse`: whether it accepts `s` is decided by `s`
/// alone, and this shim merely reports which way it decided.
#[verifier::external_body]
pub(crate) fn parse_url_check(s: &str) -> (r: bool)
    ensures
        r == url_well_formed(s@),
{
    match url::Url::parse(s) {
        Ok(_) => true,
        Err(_) => false,
    }
}

/// Relies on `String::from_utf8`: it succeeds exactly on valid UTF-8 input,
/// returning the string whose characters those bytes encode.
#[verifier::external_body]
pub(crate) fn string_from_utf8(v: Vec<u8>) -> (r: Option<String>)
    ensures
        match r {
            Some(s) => valid_utf8(v@) && s@ == decode_utf8(v@),
            None => !valid_utf8(v@),
        },
{
    match String::from_utf8(v) {
        Ok(s) => Some(s),
        Err(_) => None,
    }
}

/// Builds the error for a non-200 status from a borrowed body.
pub fn new_http_error_str(status: u16, body: &str) -> (e: Error)
    ensures
        (e.kind matches ErrorKind::Http(st, b) && st == status && b@ == body@),
{
    crate::error::new_http_error(status, body.to_owned())
}

/// Interprets a response at the library's uniform success rule: status 200
/// yields the body, any other status is an `Http` error carrying the status
/// and the body verbatim.
pub fn require_ok_str(status: u16, body: &str) -> (r: Result<String, Error>)
    ensures
        match r {
            Ok(b) => status == 200 && b@ == body@,
            Err(e) => status != 200 && (e.kind matches ErrorKind::Http(st, b) && st == status
                && b@ == body@),
        },
{
    if status == 200 {
        Ok(body.to_owned())
    } else {
        Err(new_http_error_str(status, body))
    }
}

/// The URL text for a request against an endpoint host.
pub open spec fn url_text(endpoint: Seq<char>, path: Seq<char>) -> Seq<char> {
    "https://"@ + endpoint + path
}

/// Builds `https://{endpoint}{path}` and validates it, failing with a
/// `UrlParse` error exactly when the text is not a well-formed URL.
pub fn build_url(endpoint: &str, path: &str) -> (r: Result<String, Error>)
    ensures
        match r {
            Ok(u) => u@ == url_text(endpoint@, path@) && url_well_formed(
                url_text(endpoint@, path@),
            ),
            Err(e) => !url_well_formed(url_text(endpoint@, path@)) && (e.kind matches ErrorKind::UrlParse(m) && m@ == url_text(endpoint@, path@)),
        },
{
    let mut u: String = "https://".to_owned();
    u.append(endpoint);
    u.append(path);
    if parse_url_check(u.as_str()) {
        Ok(u)
    } else {
        Err(Error::new(ErrorKind::UrlParse(u)))
    }
}

/// The percent-encoding of a string, character by character over its UTF-8
/// bytes, as text.
pub open spec fn pct_chars(s: Seq<char>) -> Seq<char> {
    Seq::new(
        pct_bytes(encode_utf8(s)).len(),
        |i: int| pct_bytes(encode_utf8(s))[i] as char,
    )
}

/// Percent-encodes a string for use in a URL path segment or query value.
pub fn pct_encode_str(s: &str) -> (r: String)
    ensures
        r@ == pct_chars(s@),
{
    let mut out: Vec<u8> = Vec::new();
    push_pct(&mut out, s.as_bytes());
    proof {
        lemma_pct_bytes_ascii(encode_utf8(s@));
        lemma_ascii_bytes_utf8(out@);
    }
    match string_from_utf8(out) {
        Some(r) => r,
        None => {
            proof {
                assert(false);
            }
            String::new()
        },
    }
}

} // verus!
