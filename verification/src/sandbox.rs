//! The sandbox API client: provisioning against the disposable test
//! environment.  Its state machine is simpler than the main client's: a
//! fresh client becomes initialized once `init_finish` stores a sandbox
//! token.
//!
//! A sandbox operator is a disposable resource: release it explicitly
//! with a `delete_operator_request` exchange when it is no longer needed
//! (deleting an already-deleted operator surfaces `Http(404, ..)`, which
//! callers may ignore).

use crate::codec::bad_json_error;
use crate::codec::bad_shape_error;
use crate::codec::decode_registration;
use crate::codec::get_str_field;
use crate::codec::spec_decode_registration;
use crate::codec::str_field;
use crate::error::Error;
use crate::error::ErrorKind;
use crate::json::esc_bytes;
use crate::json::parse_json;
use crate::json::push_esc;
use crate::json::spec_parse_json;
use crate::json::Json;
use crate::json::JsonV;
use crate::model::SubscriberRegistration;
use crate::textenc::push_lit;
use crate::util::build_url;
use crate::util::pct_chars;
use crate::util::pct_encode_str;
use crate::util::require_ok_str;
use crate::util::url_text;
use crate::util::url_well_formed;
use crate::util::HTTPMethod;
use crate::util::HttpRequest;
use vstd::prelude::*;
use vstd::string::StringExecFns;
use vstd::utf8::encode_utf8;

verus! {

/// Credentials used to initialize a sandbox operator.
#[derive(Debug, Clone)]
pub struct SandboxInitCredential {
    pub email: String,
    pub password: String,
    pub auth_key_id: String,
    pub auth_key: String,
}

/// The model of a sandbox init credential.
pub struct SandboxInitCredentialV {
    pub email: Seq<char>,
    pub password: Seq<char>,
    pub auth_key_id: Seq<char>,
    pub auth_key: Seq<char>,
}

impl View for SandboxInitCredential {
    type V = SandboxInitCredentialV;

    open spec fn view(&self) -> SandboxInitCredentialV {
        SandboxInitCredentialV {
            email: self.email@,
            password: self.password@,
            auth_key_id: self.auth_key_id@,
            auth_key: self.auth_key@,
        }
    }
}

/// An ephemeral sandbox session: the operator it belongs to and the
/// credential pair to act under it.
#[derive(Debug, Clone)]
pub struct SandboxToken {
    pub operator_id: String,
    pub api_key: String,
    pub token: String,
}

/// The model of a sandbox token.
pub struct SandboxTokenV {
    pub operator_id: Seq<char>,
    pub api_key: Seq<char>,
    pub token: Seq<char>,
}

impl View for SandboxToken {
    type V = SandboxTokenV;

    open spec fn view(&self) -> SandboxTokenV {
        SandboxTokenV {
            operator_id: self.operator_id@,
            api_key: self.api_key@,
            token: self.token@,
        }
    }
}

/// The canonical JSON bytes of a sandbox init request:
/// `{"email":"..","password":"..","authKeyId":"..","authKey":".."}`.
pub open spec fn sandbox_init_bytes(c: SandboxInitCredentialV) -> Seq<u8> {
    encode_utf8("{\"email\":\""@) + esc_bytes(encode_utf8(c.email)) + encode_utf8(
        "\",\"password\":\""@,
    ) + esc_bytes(encode_utf8(c.password)) + encode_utf8("\",\"authKeyId\":\""@) + esc_bytes(
        encode_utf8(c.auth_key_id),
    ) + encode_utf8("\",\"authKey\":\""@) + esc_bytes(encode_utf8(c.auth_key)) + encode_utf8(
        "\"}"@,
    )
}

/// Serializes a sandbox init credential to its canonical JSON bytes.
pub fn encode_sandbox_init(c: &SandboxInitCredential) -> (out: Vec<u8>)
    ensures
        out@ == sandbox_init_bytes(c@),
{
    let mut out: Vec<u8> = Vec::new();
    push_lit(&mut out, "{\"email\":\"");
    push_esc(&mut out, c.email.as_str());
    push_lit(&mut out, "\",\"password\":\"");
    push_esc(&mut out, c.password.as_str());
    push_lit(&mut out, "\",\"authKeyId\":\"");
    push_esc(&mut out, c.auth_key_id.as_str());
    push_lit(&mut out, "\",\"authKey\":\"");
    push_esc(&mut out, c.auth_key.as_str());
    push_lit(&mut out, "\"}");
    proof {
        assert(out@ =~= sandbox_init_bytes(c@));
    }
    out
}

/// A sandbox token response: `{operatorId, apiKey, token}`.
pub open spec fn sandbox_token_of(v: JsonV) -> Option<SandboxTokenV> {
    match v {
        JsonV::Obj(m) => if str_field(m, "operatorId"@) is None || str_field(
            m,
            "apiKey"@,
        ) is None || str_field(m, "token"@) is None {
            None
        } else {
            Some(
                SandboxTokenV {
                    operator_id: str_field(m, "operatorId"@).unwrap(),
                    api_key: str_field(m, "apiKey"@).unwrap(),
                    token: str_field(m, "token"@).unwrap(),
                },
            )
        },
        _ => None,
    }
}

/// Reads a sandbox token out of a parsed JSON value.
fn sandbox_token_from(v: &Json) -> (r: Option<SandboxToken>)
    ensures
        match r {
            Some(t) => sandbox_token_of(v@) == Some(t@),
            None => sandbox_token_of(v@) is None,
        },
{
    proof {
        reveal_strlit("operatorId");
        reveal_strlit("apiKey");
        reveal_strlit("token");
    }
    match v {
        Json::Obj(ms) => {
            let operator_id = match get_str_field(ms, "operatorId") {
                Some(x) => x,
                None => {
                    return None;
                },
            };
            let api_key = match get_str_field(ms, "apiKey") {
                Some(x) => x,
                None => {
                    return None;
                },
            };
            let token = match get_str_field(ms, "token") {
                Some(x) => x,
                None => {
                    return None;
                },
            };
            Some(SandboxToken { operator_id, api_key, token })
        },
        _ => None,
    }
}

/// What decoding a sandbox token body yields.
pub open spec fn spec_decode_sandbox_token(bytes: Seq<u8>) -> Option<SandboxTokenV> {
    match spec_parse_json(bytes) {
        Some(v) => sandbox_token_of(v),
        None => None,
    }
}

/// Decodes a response body into a sandbox token.
pub fn decode_sandbox_token(body: &str) -> (r: Result<SandboxToken, Error>)
    ensures
        match r {
            Ok(t) => spec_decode_sandbox_token(encode_utf8(body@)) == Some(t@),
            Err(e) => spec_decode_sandbox_token(encode_utf8(body@)) is None && (
            e.kind matches ErrorKind::Decode(_)),
        },
{
    match parse_json(body.as_bytes()) {
        None => Err(bad_json_error()),
        Some(v) => match sandbox_token_from(&v) {
            Some(t) => Ok(t),
            None => Err(bad_shape_error()),
        },
    }
}

/// The path that deletes a sandbox operator.
pub open spec fn delete_operator_path(operator_id: Seq<char>) -> Seq<char> {
    "/v1/sandbox/operators/"@ + pct_chars(operator_id)
}

/// A client of the sandbox provisioning API, bound to the sandbox
/// endpoint at construction.
#[derive(Debug)]
pub struct SandboxClient {
    pub endpoint: String,
    pub token: Option<SandboxToken>,
}

impl SandboxClient {
    /// A fresh sandbox client with no token yet.
    pub fn new() -> (c: SandboxClient)
        ensures
            c.endpoint@ == crate::SORACOM_SANDBOX_API_ENDPOINT@,
            c.token is None,
    {
        SandboxClient {
            endpoint: crate::SORACOM_SANDBOX_API_ENDPOINT.to_owned(),
            token: None,
        }
    }

    /// Whether the client holds a sandbox token.
    pub open spec fn initialized(&self) -> bool {
        self.token is Some
    }

    /// Builds `POST {endpoint}/v1/sandbox/init` carrying the credential.
    pub fn init_request(&self, cred: &SandboxInitCredential) -> (r: Result<HttpRequest, Error>)
        ensures
            match r {
                Ok(req) => {
                    &&& req.method == HTTPMethod::POST
                    &&& req.url@ == url_text(self.endpoint@, "/v1/sandbox/init"@)
                    &&& url_well_formed(url_text(self.endpoint@, "/v1/sandbox/init"@))
                    &&& req.headers@.len() == 1
                    &&& req.headers@[0].0@ == "Content-Type"@
                    &&& req.headers@[0].1@ == "application/json"@
                    &&& (req.body matches Some(b) && b@ == sandbox_init_bytes(cred@))
                },
                Err(e) => {
                    &&& !url_well_formed(url_text(self.endpoint@, "/v1/sandbox/init"@))
                    &&& (e.kind matches ErrorKind::UrlParse(_))
                },
            },
    {
        let url = match build_url(self.endpoint.as_str(), "/v1/sandbox/init") {
            Ok(u) => u,
            Err(e) => {
                return Err(e);
            },
        };
        let body = encode_sandbox_init(cred);
        let mut headers: Vec<(String, String)> = Vec::new();
        headers.push(("Content-Type".to_owned(), "application/json".to_owned()));
        Ok(HttpRequest { method: HTTPMethod::POST, url, headers, body: Some(body) })
    }

    /// Completes initialization.  On status 200 with a well-formed body
    /// the client stores the sandbox token and returns a copy of it; on
    /// any other outcome it is left unchanged.
    pub fn init_finish(&mut self, status: u16, body: &str) -> (r: Result<SandboxToken, Error>)
        ensures
            match r {
                Ok(t) => {
                    &&& status == 200
                    &&& spec_decode_sandbox_token(encode_utf8(body@)) == Some(t@)
                    &&& (final(self).token matches Some(held) && held@ == t@)
                    &&& final(self).endpoint == old(self).endpoint
                },
                Err(e) => {
                    &&& *final(self) == *old(self)
                    &&& if status != 200 {
                        (e.kind matches ErrorKind::Http(st, b) && st == status && b@ == body@)
                    } else {
                        spec_decode_sandbox_token(encode_utf8(body@)) is None && (
                        e.kind matches ErrorKind::Decode(_))
                    }
                },
            },
    {
        let body = require_ok_str(status, body)?;
        match decode_sandbox_token(body.as_str()) {
            Ok(t) => {
                let held = SandboxToken {
                    operator_id: t.operator_id.clone(),
                    api_key: t.api_key.clone(),
                    token: t.token.clone(),
                };
                self.token = Some(held);
                Ok(t)
            },
            Err(e) => Err(e),
        }
    }

    /// Builds `POST {endpoint}/v1/sandbox/subscribers/create`, which
    /// provisions an ephemeral subscriber and returns its registration.
    pub fn create_subscriber_request(&self) -> (r: Result<HttpRequest, Error>)
        ensures
            match r {
                Ok(req) => {
                    &&& req.method == HTTPMethod::POST
                    &&& req.url@ == url_text(self.endpoint@, "/v1/sandbox/subscribers/create"@)
                    &&& url_well_formed(
                        url_text(self.endpoint@, "/v1/sandbox/subscribers/create"@),
                    )
                    &&& req.headers@.len() == 1
                    &&& req.headers@[0].0@ == "Content-Type"@
                    &&& req.headers@[0].1@ == "application/json"@
                    &&& req.body is None
                },
                Err(e) => {
                    &&& !url_well_formed(
                        url_text(self.endpoint@, "/v1/sandbox/subscribers/create"@),
                    )
                    &&& (e.kind matches ErrorKind::UrlParse(_))
                },
            },
    {
        let url = match build_url(self.endpoint.as_str(), "/v1/sandbox/subscribers/create") {
            Ok(u) => u,
            Err(e) => {
                return Err(e);
            },
        };
        let mut headers: Vec<(String, String)> = Vec::new();
        headers.push(("Content-Type".to_owned(), "application/json".to_owned()));
        Ok(HttpRequest { method: HTTPMethod::POST, url, headers, body: None })
    }

    /// Interprets the provisioning response: 200 with a well-formed body
    /// yields the new subscriber's registration payload.
    pub fn create_subscriber_response(&self, status: u16, body: &str) -> (r: Result<
        SubscriberRegistration,
        Error,
    >)
        ensures
            match r {
                Ok(regi) => status == 200 && spec_decode_registration(encode_utf8(body@)) == Some(
                    regi@,
                ),
                Err(e) => if status != 200 {
                    (e.kind matches ErrorKind::Http(st, b) && st == status && b@ == body@)
                } else {
                    spec_decode_registration(encode_utf8(body@)) is None && (
                    e.kind matches ErrorKind::Decode(_))
                },
            },
    {
        let body = require_ok_str(status, body)?;
        decode_registration(body.as_str())
    }

    /// Builds `DELETE {endpoint}/v1/sandbox/operators/{operatorId}`,
    /// which releases a disposable sandbox operator.
    pub fn delete_operator_request(&self, token: &SandboxToken) -> (r: Result<HttpRequest, Error>)
        ensures
            match r {
                Ok(req) => {
                    &&& req.method == HTTPMethod::DELETE
                    &&& req.url@ == url_text(
                        self.endpoint@,
                        delete_operator_path(token.operator_id@),
                    )
                    &&& url_well_formed(
                        url_text(self.endpoint@, delete_operator_path(token.operator_id@)),
                    )
                    &&& req.headers@.len() == 1
                    &&& req.headers@[0].0@ == "Content-Type"@
                    &&& req.headers@[0].1@ == "application/json"@
                    &&& req.body is None
                },
                Err(e) => {
                    &&& !url_well_formed(
                        url_text(self.endpoint@, delete_operator_path(token.operator_id@)),
                    )
                    &&& (e.kind matches ErrorKind::UrlParse(_))
                },
            },
    {
        let mut path: String = "/v1/sandbox/operators/".to_owned();
        let esc = pct_encode_str(token.operator_id.as_str());
        path.append(esc.as_str());
        let url = match build_url(self.endpoint.as_str(), path.as_str()) {
            Ok(u) => u,
            Err(e) => {
                return Err(e);
            },
        };
        let mut headers: Vec<(String, String)> = Vec::new();
        headers.push(("Content-Type".to_owned(), "application/json".to_owned()));
        Ok(HttpRequest { method: HTTPMethod::DELETE, url, headers, body: None })
    }

    /// Interprets a deletion response: 200 is success; any other status
    /// (404 for an operator already deleted) is an `Http` error carrying
    /// status and body, which the caller may choose to ignore.
    pub fn delete_operator_response(&self, status: u16, body: &str) -> (r: Result<(), Error>)
        ensures
            match r {
                Ok(()) => status == 200,
                Err(e) => status != 200 && (e.kind matches ErrorKind::Http(st, b) && st == status
                    && b@ == body@),
            },
    {
        let _body = require_ok_str(status, body)?;
        Ok(())
    }
}

} // verus!
