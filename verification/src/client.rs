//! The authenticated API client: a small state machine from
//! unauthenticated (endpoint only) to authenticated (endpoint plus
//! credentials), with one request builder and one response handler per
//! operation.
//!
//! The caller owns the transport: it performs each built `HttpRequest`
//! over HTTP and hands the response status and body back to the matching
//! `*_response` handler (or `auth_finish`).

use crate::codec::auth_request_bytes;
use crate::codec::encode_auth_request;
use crate::codec::decode_auth_response;
use crate::codec::decode_subscriber;
use crate::codec::decode_subscriber_list;
use crate::codec::registration_body_bytes;
use crate::codec::spec_decode_auth_response;
use crate::codec::spec_decode_subscriber;
use crate::codec::spec_decode_subscriber_list;
use crate::codec::subs_views;
use crate::error::Error;
use crate::error::ErrorKind;
use crate::model::AuthRequest;
use crate::model::AuthRequestV;
use crate::model::Subscriber;
use crate::model::SubscriberRegistration;
use crate::option::qs_pairs;
use crate::option::render_qs;
use crate::option::ListSubscribersOptions;
use crate::util::build_url;
use crate::util::new_http_error_str;
use crate::util::pct_chars;
use crate::util::pct_encode_str;
use crate::util::require_ok_str;
use crate::util::url_text;
use crate::util::url_well_formed;
use crate::util::HTTPMethod;
use crate::util::HttpRequest;
use vstd::prelude::*;
use vstd::string::StringExecFns;

verus! {

/// The credential pair attached to every authenticated request.
#[derive(Debug, Clone)]
pub struct Credentials {
    pub api_key: String,
    pub token: String,
}

/// A session bound to one API endpoint.  The endpoint is fixed at
/// construction; credentials are absent until `auth_finish` or
/// `auth_token` stores them, and immutable afterwards.
#[derive(Debug)]
pub struct Client {
    pub endpoint: String,
    pub credentials: Option<Credentials>,
}

/// The headers of an authenticated request: JSON content type, then the
/// API-key and token headers carrying the credentials.
pub open spec fn authed_headers(h: Seq<(String, String)>, c: Credentials) -> bool {
    &&& h.len() == 3
    &&& h[0].0@ == "Content-Type"@
    &&& h[0].1@ == "application/json"@
    &&& h[1].0@ == crate::SORACOM_API_HEADER_API_KEY@
    &&& h[1].1@ == c.api_key@
    &&& h[2].0@ == crate::SORACOM_API_HEADER_TOKEN@
    &&& h[2].1@ == c.token@
}

/// The path of a subscriber listing, with the encoded filters when any
/// are present.
pub open spec fn list_subscribers_path(o: Option<ListSubscribersOptions>) -> Seq<char> {
    match o {
        None => "/v1/subscribers"@,
        Some(op) => if qs_pairs(op).len() == 0 {
            "/v1/subscribers"@
        } else {
            "/v1/subscribers"@ + "?"@ + render_qs(qs_pairs(op))
        },
    }
}

/// The path that fetches one subscriber by IMSI.
pub open spec fn get_subscriber_path(imsi: Seq<char>) -> Seq<char> {
    "/v1/subscribers/"@ + pct_chars(imsi)
}

/// The path that registers one subscriber by IMSI.
pub open spec fn register_subscriber_path(imsi: Seq<char>) -> Seq<char> {
    "/v1/subscribers/"@ + pct_chars(imsi) + "/register"@
}

impl Client {
    /// A fresh, unauthenticated client against the global API endpoint.
    pub fn new() -> (c: Client)
        ensures
            c.endpoint@ == crate::SORACOM_GLOBAL_API_ENDPOINT@,
            c.credentials is None,
    {
        Client { endpoint: crate::SORACOM_GLOBAL_API_ENDPOINT.to_owned(), credentials: None }
    }

    /// A fresh, unauthenticated client against the given endpoint host.
    pub fn with_endpoint(endpoint: &str) -> (c: Client)
        ensures
            c.endpoint@ == endpoint@,
            c.credentials is None,
    {
        Client { endpoint: endpoint.to_owned(), credentials: None }
    }

    /// Whether the client holds credentials.
    pub open spec fn authenticated(&self) -> bool {
        self.credentials is Some
    }

    /// Builds the authentication handshake request: `POST
    /// {endpoint}/v1/auth` with the key pair and a 60-second token
    /// timeout.  No credential headers are attached; this is the one
    /// request an unauthenticated client may build.
    pub fn auth_request(&self, key: &str, secret: &str) -> (r: Result<HttpRequest, Error>)
        ensures
            match r {
                Ok(req) => {
                    &&& req.method == HTTPMethod::POST
                    &&& req.url@ == url_text(self.endpoint@, "/v1/auth"@)
                    &&& url_well_formed(url_text(self.endpoint@, "/v1/auth"@))
                    &&& req.headers@.len() == 1
                    &&& req.headers@[0].0@ == "Content-Type"@
                    &&& req.headers@[0].1@ == "application/json"@
                    &&& (req.body matches Some(b) && b@ == auth_request_bytes(
                        AuthRequestV {
                            auth_key_id: key@,
                            auth_key: secret@,
                            token_timeout_seconds: 60,
                        },
                    ))
                },
                Err(e) => {
                    &&& !url_well_formed(url_text(self.endpoint@, "/v1/auth"@))
                    &&& (e.kind matches ErrorKind::UrlParse(_))
                },
            },
    {
        let url = match build_url(self.endpoint.as_str(), "/v1/auth") {
            Ok(u) => u,
            Err(e) => {
                return Err(e);
            },
        };
        let payload = AuthRequest {
            auth_key_id: key.to_owned(),
            auth_key: secret.to_owned(),
            token_timeout_seconds: 60,
        };
        let body = encode_auth_request(&payload);
        let mut headers: Vec<(String, String)> = Vec::new();
        headers.push(("Content-Type".to_owned(), "application/json".to_owned()));
        Ok(HttpRequest { method: HTTPMethod::POST, url, headers, body: Some(body) })
    }

    /// Completes the handshake.  On status 200 with a well-formed body the
    /// client stores the returned credentials and becomes authenticated;
    /// on any other status it is left unchanged and the error carries the
    /// status and body; on a malformed 200 body it is left unchanged with
    /// a `Decode` error.
    pub fn auth_finish(&mut self, status: u16, body: &str) -> (r: Result<(), Error>)
        ensures
            match r {
                Ok(()) => {
                    &&& status == 200
                    &&& (spec_decode_auth_response(vstd::utf8::encode_utf8(body@)) matches Some(a)
                        && (final(self).credentials matches Some(c) && c.api_key@ == a.api_key
                        && c.token@ == a.token))
                    &&& final(self).endpoint == old(self).endpoint
                },
                Err(e) => {
                    &&& *final(self) == *old(self)
                    &&& if status != 200 {
                        (e.kind matches ErrorKind::Http(st, b) && st == status && b@ == body@)
                    } else {
                        spec_decode_auth_response(vstd::utf8::encode_utf8(body@)) is None && (
                        e.kind matches ErrorKind::Decode(_))
                    }
                },
            },
    {
        if status != 200 {
            return Err(new_http_error_str(status, body));
        }
        match decode_auth_response(body) {
            Ok(a) => {
                self.credentials = Some(Credentials { api_key: a.api_key, token: a.token });
                Ok(())
            },
            Err(e) => Err(e),
        }
    }

    /// Injects credentials obtained out of band (for instance from the
    /// sandbox flow); the client becomes authenticated unconditionally.
    pub fn auth_token(&mut self, api_key: &str, token: &str)
        ensures
            final(self).endpoint == old(self).endpoint,
            (final(self).credentials matches Some(c) && c.api_key@ == api_key@ && c.token@
                == token@),
    {
        self.credentials = Some(
            Credentials { api_key: api_key.to_owned(), token: token.to_owned() },
        );
    }

    /// The standard headers of an authenticated request.
    fn make_authed_headers(&self) -> (h: Vec<(String, String)>)
        requires
            self.authenticated(),
        ensures
            authed_headers(h@, self.credentials.unwrap()),
    {
        let mut h: Vec<(String, String)> = Vec::new();
        h.push(("Content-Type".to_owned(), "application/json".to_owned()));
        match &self.credentials {
            Some(c) => {
                h.push((crate::SORACOM_API_HEADER_API_KEY.to_owned(), c.api_key.clone()));
                h.push((crate::SORACOM_API_HEADER_TOKEN.to_owned(), c.token.clone()));
            },
            None => {
                proof {
                    assert(false);
                }
            },
        }
        h
    }

    /// Builds `GET {endpoint}/v1/subscribers[?query]` with the credential
    /// headers attached.
    pub fn list_subscriber_request(&self, opt: Option<ListSubscribersOptions>) -> (r: Result<
        HttpRequest,
        Error,
    >)
        requires
            self.authenticated(),
        ensures
            match r {
                Ok(req) => {
                    &&& req.method == HTTPMethod::GET
                    &&& req.url@ == url_text(self.endpoint@, list_subscribers_path(opt))
                    &&& url_well_formed(url_text(self.endpoint@, list_subscribers_path(opt)))
                    &&& authed_headers(req.headers@, self.credentials.unwrap())
                    &&& req.body is None
                },
                Err(e) => {
                    &&& !url_well_formed(url_text(self.endpoint@, list_subscribers_path(opt)))
                    &&& (e.kind matches ErrorKind::UrlParse(_))
                },
            },
    {
        let mut path: String = "/v1/subscribers".to_owned();
        match &opt {
            Some(op) => {
                match op.to_query_params() {
                    Some(q) => {
                        path.append("?");
                        path.append(q.as_str());
                    },
                    None => {},
                }
            },
            None => {},
        }
        proof {
            assert(path@ =~= list_subscribers_path(opt));
        }
        let url = match build_url(self.endpoint.as_str(), path.as_str()) {
            Ok(u) => u,
            Err(e) => {
                return Err(e);
            },
        };
        let headers = self.make_authed_headers();
        Ok(HttpRequest { method: HTTPMethod::GET, url, headers, body: None })
    }

    /// Interprets a listing response: 200 with a well-formed body yields
    /// the records (an empty array is a valid empty list); any other
    /// status is an `Http` error carrying status and body.
    pub fn list_subscriber_response(&self, status: u16, body: &str) -> (r: Result<
        Vec<Subscriber>,
        Error,
    >)
        ensures
            match r {
                Ok(subs) => status == 200 && spec_decode_subscriber_list(
                    vstd::utf8::encode_utf8(body@),
                ) == Some(subs_views(subs@)),
                Err(e) => if status != 200 {
                    (e.kind matches ErrorKind::Http(st, b) && st == status && b@ == body@)
                } else {
                    spec_decode_subscriber_list(vstd::utf8::encode_utf8(body@)) is None && (
                    e.kind matches ErrorKind::Decode(_))
                },
            },
    {
        let body = require_ok_str(status, body)?;
        decode_subscriber_list(body.as_str())
    }

    /// Builds `GET {endpoint}/v1/subscribers/{imsi}` with the credential
    /// headers attached; the IMSI is path-escaped.
    pub fn get_subscriber_request(&self, imsi: &str) -> (r: Result<HttpRequest, Error>)
        requires
            self.authenticated(),
        ensures
            match r {
                Ok(req) => {
                    &&& req.method == HTTPMethod::GET
                    &&& req.url@ == url_text(self.endpoint@, get_subscriber_path(imsi@))
                    &&& url_well_formed(url_text(self.endpoint@, get_subscriber_path(imsi@)))
                    &&& authed_headers(req.headers@, self.credentials.unwrap())
                    &&& req.body is None
                },
                Err(e) => {
                    &&& !url_well_formed(url_text(self.endpoint@, get_subscriber_path(imsi@)))
                    &&& (e.kind matches ErrorKind::UrlParse(_))
                },
            },
    {
        let mut path: String = "/v1/subscribers/".to_owned();
        let esc = pct_encode_str(imsi);
        path.append(esc.as_str());
        let url = match build_url(self.endpoint.as_str(), path.as_str()) {
            Ok(u) => u,
            Err(e) => {
                return Err(e);
            },
        };
        let headers = self.make_authed_headers();
        Ok(HttpRequest { method: HTTPMethod::GET, url, headers, body: None })
    }

    /// Interprets a single-subscriber response: 200 with a well-formed
    /// body yields the record; any other status (404 for an unknown IMSI)
    /// is an `Http` error carrying status and body.
    pub fn get_subscriber_response(&self, status: u16, body: &str) -> (r: Result<Subscriber, Error>)
        ensures
            match r {
                Ok(sub) => status == 200 && spec_decode_subscriber(vstd::utf8::encode_utf8(body@))
                    == Some(sub@),
                Err(e) => if status != 200 {
                    (e.kind matches ErrorKind::Http(st, b) && st == status && b@ == body@)
                } else {
                    spec_decode_subscriber(vstd::utf8::encode_utf8(body@)) is None && (
                    e.kind matches ErrorKind::Decode(_))
                },
            },
    {
        let body = require_ok_str(status, body)?;
        decode_subscriber(body.as_str())
    }

    /// Builds `POST {endpoint}/v1/subscribers/{imsi}/register` carrying
    /// the registration body, with the credential headers attached.
    pub fn register_subscriber_request(&self, regi: &SubscriberRegistration) -> (r: Result<
        HttpRequest,
        Error,
    >)
        requires
            self.authenticated(),
        ensures
            match r {
                Ok(req) => {
                    &&& req.method == HTTPMethod::POST
                    &&& req.url@ == url_text(
                        self.endpoint@,
                        register_subscriber_path(regi.imsi@),
                    )
                    &&& url_well_formed(
                        url_text(self.endpoint@, register_subscriber_path(regi.imsi@)),
                    )
                    &&& authed_headers(req.headers@, self.credentials.unwrap())
                    &&& (req.body matches Some(b) && b@ == registration_body_bytes(regi@))
                },
                Err(e) => {
                    &&& !url_well_formed(
                        url_text(self.endpoint@, register_subscriber_path(regi.imsi@)),
                    )
                    &&& (e.kind matches ErrorKind::UrlParse(_))
                },
            },
    {
        let mut path: String = "/v1/subscribers/".to_owned();
        let esc = pct_encode_str(regi.imsi.as_str());
        path.append(esc.as_str());
        path.append("/register");
        let url = match build_url(self.endpoint.as_str(), path.as_str()) {
            Ok(u) => u,
            Err(e) => {
                return Err(e);
            },
        };
        let headers = self.make_authed_headers();
        let body = regi.fmt_registration_body();
        Ok(HttpRequest { method: HTTPMethod::POST, url, headers, body: Some(body) })
    }

    /// Interprets a registration response: 200 is success and the body is
    /// discarded; any other status is an `Http` error carrying status and
    /// body.
    pub fn register_subscriber_response(&self, status: u16, body: &str) -> (r: Result<(), Error>)
        ensures
            match r {
                Ok(()) => status == 200,
                Err(e) => status != 200 && (e.kind matches ErrorKind::Http(st, b) && st == status
                    && b@ == body@),
            },
    {
        let _body = require_ok_str(status, body)?;
        Ok(())
    }
}

} // verus!
