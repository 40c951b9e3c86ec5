//! A small demonstration object around an HTTP echo endpoint: it keeps a
//! record label and an optional target URL, builds the request that
//! fetches the target, and decodes the echoed response.  The caller
//! performs the HTTP exchange itself.

use crate::codec::bad_json_error;
use crate::codec::bad_shape_error;
use crate::codec::get_str_field;
use crate::codec::str_field;
use crate::codec::tags_from;
use crate::codec::tags_of;
use crate::error::Error;
use crate::error::ErrorKind;
use crate::json::lookup;
use crate::json::parse_json;
use crate::json::spec_parse_json;
use crate::json::Json;
use crate::json::JsonV;
use crate::model::pairs_views;
use crate::model::Tags;
use crate::textenc::ascii_bytes;
use crate::util::require_ok_str;
use crate::util::HTTPMethod;
use crate::util::HttpRequest;
use vstd::prelude::*;
use vstd::utf8::encode_utf8;

verus! {

/// The echo endpoint's response: the query arguments and headers it saw,
/// and the URL it served.
#[derive(Debug)]
pub struct PostmanResponse {
    pub args: Tags,
    pub headers: Tags,
    pub url: String,
}

/// The model of an echo response.
pub struct PostmanResponseV {
    pub args: Seq<(Seq<char>, Seq<char>)>,
    pub headers: Seq<(Seq<char>, Seq<char>)>,
    pub url: Seq<char>,
}

impl View for PostmanResponse {
    type V = PostmanResponseV;

    open spec fn view(&self) -> PostmanResponseV {
        PostmanResponseV {
            args: pairs_views(self.args@),
            headers: pairs_views(self.headers@),
            url: self.url@,
        }
    }
}

/// A required object-of-strings member.
pub open spec fn pairs_field(m: Seq<(Seq<u8>, JsonV)>, key: Seq<char>) -> Option<
    Seq<(Seq<char>, Seq<char>)>,
> {
    match lookup(m, ascii_bytes(key)) {
        Some(JsonV::Obj(tm)) => tags_of(tm),
        _ => None,
    }
}

/// An echo response: `{args, headers, url}`.
pub open spec fn postman_response_of(v: JsonV) -> Option<PostmanResponseV> {
    match v {
        JsonV::Obj(m) => if pairs_field(m, "args"@) is None || pairs_field(
            m,
            "headers"@,
        ) is None || str_field(m, "url"@) is None {
            None
        } else {
            Some(
                PostmanResponseV {
                    args: pairs_field(m, "args"@).unwrap(),
                    headers: pairs_field(m, "headers"@).unwrap(),
                    url: str_field(m, "url"@).unwrap(),
                },
            )
        },
        _ => None,
    }
}

/// Reads an echo response out of a parsed JSON value.
fn postman_response_from(v: &Json) -> (r: Option<PostmanResponse>)
    ensures
        match r {
            Some(p) => postman_response_of(v@) == Some(p@),
            None => postman_response_of(v@) is None,
        },
{
    proof {
        reveal_strlit("args");
        reveal_strlit("headers");
        reveal_strlit("url");
    }
    match v {
        Json::Obj(ms) => {
            let args = match crate::json::obj_get(ms, "args") {
                Some(Json::Obj(tm)) => match tags_from(tm) {
                    Some(t) => t,
                    None => {
                        return None;
                    },
                },
                _ => {
                    return None;
                },
            };
            let headers = match crate::json::obj_get(ms, "headers") {
                Some(Json::Obj(tm)) => match tags_from(tm) {
                    Some(t) => t,
                    None => {
                        return None;
                    },
                },
                _ => {
                    return None;
                },
            };
            let url = match get_str_field(ms, "url") {
                Some(x) => x,
                None => {
                    return None;
                },
            };
            Some(PostmanResponse { args, headers, url })
        },
        _ => None,
    }
}

/// What decoding an echo response body yields.
pub open spec fn spec_decode_postman_response(bytes: Seq<u8>) -> Option<PostmanResponseV> {
    match spec_parse_json(bytes) {
        Some(v) => postman_response_of(v),
        None => None,
    }
}

/// Decodes a response body into an echo response.
pub fn decode_postman_response(body: &str) -> (r: Result<PostmanResponse, Error>)
    ensures
        match r {
            Ok(p) => spec_decode_postman_response(encode_utf8(body@)) == Some(p@),
            Err(e) => spec_decode_postman_response(encode_utf8(body@)) is None && (
            e.kind matches ErrorKind::Decode(_)),
        },
{
    match parse_json(body.as_bytes()) {
        None => Err(bad_json_error()),
        Some(v) => match postman_response_from(&v) {
            Some(p) => Ok(p),
            None => Err(bad_shape_error()),
        },
    }
}

/// A labelled object that optionally points at a target URL.
#[derive(Debug)]
pub struct MyObject {
    pub target: Option<String>,
    pub record: String,
}

impl MyObject {
    /// A fresh object with the given record label and no target.
    pub fn new(record: &str) -> (o: MyObject)
        ensures
            o.target is None,
            o.record@ == record@,
    {
        MyObject { target: None, record: record.to_owned() }
    }

    /// Points the object at a target URL.
    pub fn set_target(&mut self, target: &str)
        ensures
            (final(self).target matches Some(t) && t@ == target@),
            final(self).record == old(self).record,
    {
        self.target = Some(target.to_owned());
    }

    /// The record label, for display by the caller.
    pub fn record(&self) -> (r: &String)
        ensures
            r == &self.record,
    {
        &self.record
    }

    /// Builds the `GET` request that fetches the given URL.
    pub fn get_request(&self, url: &str, body: Option<Vec<u8>>) -> (r: HttpRequest)
        ensures
            r.method == HTTPMethod::GET,
            r.url@ == url@,
            r.headers@.len() == 1,
            r.headers@[0].0@ == "Content-Type"@,
            r.headers@[0].1@ == "application/json"@,
            r.body == body,
    {
        let mut headers: Vec<(String, String)> = Vec::new();
        headers.push(("Content-Type".to_owned(), "application/json".to_owned()));
        HttpRequest { method: HTTPMethod::GET, url: url.to_owned(), headers, body }
    }

    /// Interprets a fetched echo response: 200 with a well-formed body
    /// yields the record, any other status an `Http` error.
    pub fn get_response(&self, status: u16, body: &str) -> (r: Result<PostmanResponse, Error>)
        ensures
            match r {
                Ok(p) => status == 200 && spec_decode_postman_response(encode_utf8(body@)) == Some(
                    p@,
                ),
                Err(e) => if status != 200 {
                    (e.kind matches ErrorKind::Http(st, b) && st == status && b@ == body@)
                } else {
                    spec_decode_postman_response(encode_utf8(body@)) is None && (
                    e.kind matches ErrorKind::Decode(_))
                },
            },
    {
        let body = require_ok_str(status, body)?;
        decode_postman_response(body.as_str())
    }
}

} // verus!
