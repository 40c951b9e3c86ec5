//! Wire codecs: JSON decoders from response bodies into domain records and
//! JSON encoders for request payloads, verified against byte-level
//! specifications.
//!
//! Decoding conventions, matching the API's wire format: field names are
//! camelCase; timestamps are signed 64-bit epoch-millisecond integers and a
//! `null` or absent value decodes to absence; `tags` decodes from an object
//! of string pairs and defaults to the empty map when absent; unknown
//! members are ignored.  Encoders escape string values as JSON requires;
//! decoders resolve escapes (see the JSON reader's dialect notes).  A key
//! repeated on the wire is kept as repeated members, and field readers
//! take the first occurrence.

use crate::error::Error;
use crate::error::ErrorKind;
use crate::json::lemma_member_views;
use crate::json::lemma_views_of;
use crate::json::lookup;
use crate::json::member_views;
use crate::json::obj_get;
use crate::json::parse_json;
use crate::json::esc_bytes;
use crate::json::parse_members;
use crate::json::parse_value;
use crate::json::skip_ws;
use crate::json::spec_parse_json;
use crate::json::views_of;
use crate::json::Json;
use crate::json::JsonV;
use crate::model::pairs_views;
use crate::model::strs_views;
use crate::model::AuthRequest;
use crate::model::AuthRequestV;
use crate::model::AuthResponse;
use crate::model::AuthResponseV;
use crate::model::Cell;
use crate::model::CellV;
use crate::model::IMEILock;
use crate::model::IMEILockV;
use crate::model::SessionStatus;
use crate::model::SessionStatusV;
use crate::model::Subscriber;
use crate::model::SubscriberRegistration;
use crate::model::SubscriberRegistrationV;
use crate::model::SubscriberV;
use crate::model::Tags;
use crate::model::Timestamp;
use crate::textenc::ascii_bytes;
use crate::textenc::dec_digits;
use crate::textenc::is_digit;
use crate::textenc::push_dec_u64;
use crate::textenc::push_lit;
use crate::json::push_esc;
use crate::util::string_from_utf8;
use vstd::prelude::*;
use vstd::utf8::decode_utf8;
use vstd::utf8::encode_utf8;
use vstd::utf8::is_ascii_chars;
use vstd::utf8::valid_utf8;

verus! {

/// A `Decode` error for a body that is not well-formed JSON.
pub(crate) fn bad_json_error() -> (e: Error)
    ensures
        e.kind matches ErrorKind::Decode(_),
{
    Error::new(ErrorKind::Decode("the body is not well-formed JSON".to_owned()))
}

/// A `Decode` error for JSON of an unexpected shape.
pub(crate) fn bad_shape_error() -> (e: Error)
    ensures
        e.kind matches ErrorKind::Decode(_),
{
    Error::new(ErrorKind::Decode("the JSON body does not have the expected shape".to_owned()))
}

/// A required string member: present, a string, and valid UTF-8.
pub open spec fn str_field(m: Seq<(Seq<u8>, JsonV)>, key: Seq<char>) -> Option<Seq<char>> {
    match lookup(m, ascii_bytes(key)) {
        Some(JsonV::Str(b)) => if valid_utf8(b) {
            Some(decode_utf8(b))
        } else {
            None
        },
        _ => None,
    }
}

/// An optional string member: absent or `null` means absence.
pub open spec fn opt_str_field(m: Seq<(Seq<u8>, JsonV)>, key: Seq<char>) -> Option<
    Option<Seq<char>>,
> {
    match lookup(m, ascii_bytes(key)) {
        None => Some(None),
        Some(JsonV::Null) => Some(None),
        Some(JsonV::Str(b)) => if valid_utf8(b) {
            Some(Some(decode_utf8(b)))
        } else {
            None
        },
        Some(_) => None,
    }
}

/// A required integer member.
pub open spec fn int_field(m: Seq<(Seq<u8>, JsonV)>, key: Seq<char>) -> Option<int> {
    match lookup(m, ascii_bytes(key)) {
        Some(JsonV::Int(x)) => Some(x),
        _ => None,
    }
}

/// An optional integer member: absent or `null` means absence.
pub open spec fn opt_int_field(m: Seq<(Seq<u8>, JsonV)>, key: Seq<char>) -> Option<Option<int>> {
    match lookup(m, ascii_bytes(key)) {
        None => Some(None),
        Some(JsonV::Null) => Some(None),
        Some(JsonV::Int(x)) => Some(Some(x)),
        Some(_) => None,
    }
}

/// A required boolean member.
pub open spec fn bool_field(m: Seq<(Seq<u8>, JsonV)>, key: Seq<char>) -> Option<bool> {
    match lookup(m, ascii_bytes(key)) {
        Some(JsonV::Bool(b)) => Some(b),
        _ => None,
    }
}

/// A required integer member that must fit in 16 unsigned bits.
pub open spec fn u16_field(m: Seq<(Seq<u8>, JsonV)>, key: Seq<char>) -> Option<u16> {
    match lookup(m, ascii_bytes(key)) {
        Some(JsonV::Int(x)) => if 0 <= x <= 0xffff {
            Some(x as u16)
        } else {
            None
        },
        _ => None,
    }
}

pub(crate) fn get_str_field(ms: &Vec<(Vec<u8>, Json)>, key: &str) -> (r: Option<String>)
    requires
        key.is_ascii(),
    ensures
        match r {
            Some(s) => str_field(member_views(ms@), key@) == Some(s@),
            None => str_field(member_views(ms@), key@) is None,
        },
{
    match obj_get(ms, key) {
        None => None,
        Some(v) => match v {
            Json::Str(b) => {
                let bytes = vstd::slice::slice_to_vec(b.as_slice());
                string_from_utf8(bytes)
            },
            _ => None,
        },
    }
}

pub(crate) fn get_opt_str_field(ms: &Vec<(Vec<u8>, Json)>, key: &str) -> (r: Option<Option<String>>)
    requires
        key.is_ascii(),
    ensures
        match r {
            Some(None) => opt_str_field(member_views(ms@), key@) == Some(None::<Seq<char>>),
            Some(Some(s)) => opt_str_field(member_views(ms@), key@) == Some(Some(s@)),
            None => opt_str_field(member_views(ms@), key@) is None,
        },
{
    match obj_get(ms, key) {
        None => Some(None),
        Some(v) => match v {
            Json::Null => Some(None),
            Json::Str(b) => {
                let bytes = vstd::slice::slice_to_vec(b.as_slice());
                match string_from_utf8(bytes) {
                    Some(s) => Some(Some(s)),
                    None => None,
                }
            },
            _ => None,
        },
    }
}

pub(crate) fn get_int_field(ms: &Vec<(Vec<u8>, Json)>, key: &str) -> (r: Option<i64>)
    requires
        key.is_ascii(),
    ensures
        match r {
            Some(x) => int_field(member_views(ms@), key@) == Some(x as int),
            None => int_field(member_views(ms@), key@) is None,
        },
{
    match obj_get(ms, key) {
        None => None,
        Some(v) => match v {
            Json::Int(x) => Some(*x),
            _ => None,
        },
    }
}

pub(crate) fn get_opt_int_field(ms: &Vec<(Vec<u8>, Json)>, key: &str) -> (r: Option<Option<i64>>)
    requires
        key.is_ascii(),
    ensures
        match r {
            Some(None) => opt_int_field(member_views(ms@), key@) == Some(None::<int>),
            Some(Some(x)) => opt_int_field(member_views(ms@), key@) == Some(Some(x as int)),
            None => opt_int_field(member_views(ms@), key@) is None,
        },
{
    match obj_get(ms, key) {
        None => Some(None),
        Some(v) => match v {
            Json::Null => Some(None),
            Json::Int(x) => Some(Some(*x)),
            _ => None,
        },
    }
}

pub(crate) fn get_bool_field(ms: &Vec<(Vec<u8>, Json)>, key: &str) -> (r: Option<bool>)
    requires
        key.is_ascii(),
    ensures
        match r {
            Some(b) => bool_field(member_views(ms@), key@) == Some(b),
            None => bool_field(member_views(ms@), key@) is None,
        },
{
    match obj_get(ms, key) {
        None => None,
        Some(v) => match v {
            Json::Bool(b) => Some(*b),
            _ => None,
        },
    }
}

pub(crate) fn get_u16_field(ms: &Vec<(Vec<u8>, Json)>, key: &str) -> (r: Option<u16>)
    requires
        key.is_ascii(),
    ensures
        match r {
            Some(x) => u16_field(member_views(ms@), key@) == Some(x),
            None => u16_field(member_views(ms@), key@) is None,
        },
{
    match obj_get(ms, key) {
        None => None,
        Some(v) => match v {
            Json::Int(x) => {
                if 0 <= *x && *x <= 0xffff {
                    Some(*x as u16)
                } else {
                    None
                }
            },
            _ => None,
        },
    }
}

/// An authentication response: `{apiKey, operatorId, token}`.
pub open spec fn auth_response_of(v: JsonV) -> Option<AuthResponseV> {
    match v {
        JsonV::Obj(m) => if str_field(m, "apiKey"@) is None || str_field(m, "operatorId"@) is None
            || str_field(m, "token"@) is None {
            None
        } else {
            Some(
                AuthResponseV {
                    api_key: str_field(m, "apiKey"@).unwrap(),
                    operator_id: str_field(m, "operatorId"@).unwrap(),
                    token: str_field(m, "token"@).unwrap(),
                },
            )
        },
        _ => None,
    }
}

/// Reads an authentication response record out of a parsed JSON value.
pub fn auth_response_from(v: &Json) -> (r: Option<AuthResponse>)
    ensures
        match r {
            Some(a) => auth_response_of(v@) == Some(a@),
            None => auth_response_of(v@) is None,
        },
{
    proof {
        reveal_strlit("apiKey");
        reveal_strlit("operatorId");
        reveal_strlit("token");
    }
    match v {
        Json::Obj(ms) => {
            let api_key = match get_str_field(ms, "apiKey") {
                Some(x) => x,
                None => {
                    return None;
                },
            };
            let operator_id = match get_str_field(ms, "operatorId") {
                Some(x) => x,
                None => {
                    return None;
                },
            };
            let token = match get_str_field(ms, "token") {
                Some(x) => x,
                None => {
                    return None;
                },
            };
            Some(AuthResponse { api_key, operator_id, token })
        },
        _ => None,
    }
}

/// An authentication request: `{authKeyId, authKey, tokenTimeoutSeconds}`.
pub open spec fn auth_request_of(v: JsonV) -> Option<AuthRequestV> {
    match v {
        JsonV::Obj(m) => if str_field(m, "authKeyId"@) is None || str_field(m, "authKey"@) is None
            || int_field(m, "tokenTimeoutSeconds"@) is None || !(0 <= int_field(
            m,
            "tokenTimeoutSeconds"@,
        ).unwrap() <= 0xffffffff) {
            None
        } else {
            Some(
                AuthRequestV {
                    auth_key_id: str_field(m, "authKeyId"@).unwrap(),
                    auth_key: str_field(m, "authKey"@).unwrap(),
                    token_timeout_seconds: int_field(m, "tokenTimeoutSeconds"@).unwrap() as u32,
                },
            )
        },
        _ => None,
    }
}

/// Reads an authentication request record out of a parsed JSON value.
pub fn auth_request_from(v: &Json) -> (r: Option<AuthRequest>)
    ensures
        match r {
            Some(a) => auth_request_of(v@) == Some(a@),
            None => auth_request_of(v@) is None,
        },
{
    proof {
        reveal_strlit("authKeyId");
        reveal_strlit("authKey");
        reveal_strlit("tokenTimeoutSeconds");
    }
    match v {
        Json::Obj(ms) => {
            let auth_key_id = match get_str_field(ms, "authKeyId") {
                Some(x) => x,
                None => {
                    return None;
                },
            };
            let auth_key = match get_str_field(ms, "authKey") {
                Some(x) => x,
                None => {
                    return None;
                },
            };
            let timeout = match get_int_field(ms, "tokenTimeoutSeconds") {
                Some(x) => x,
                None => {
                    return None;
                },
            };
            if !(0 <= timeout && timeout <= 0xffffffff) {
                return None;
            }
            Some(
                AuthRequest {
                    auth_key_id,
                    auth_key,
                    token_timeout_seconds: timeout as u32,
                },
            )
        },
        _ => None,
    }
}

/// A registration payload: `{imsi, registrationSecret}`.
pub open spec fn registration_of(v: JsonV) -> Option<SubscriberRegistrationV> {
    match v {
        JsonV::Obj(m) => if str_field(m, "imsi"@) is None || str_field(
            m,
            "registrationSecret"@,
        ) is None {
            None
        } else {
            Some(
                SubscriberRegistrationV {
                    imsi: str_field(m, "imsi"@).unwrap(),
                    registration_secret: str_field(m, "registrationSecret"@).unwrap(),
                },
            )
        },
        _ => None,
    }
}

/// Reads a registration payload out of a parsed JSON value.
pub fn registration_from(v: &Json) -> (r: Option<SubscriberRegistration>)
    ensures
        match r {
            Some(a) => registration_of(v@) == Some(a@),
            None => registration_of(v@) is None,
        },
{
    proof {
        reveal_strlit("imsi");
        reveal_strlit("registrationSecret");
    }
    match v {
        Json::Obj(ms) => {
            let imsi = match get_str_field(ms, "imsi") {
                Some(x) => x,
                None => {
                    return None;
                },
            };
            let registration_secret = match get_str_field(ms, "registrationSecret") {
                Some(x) => x,
                None => {
                    return None;
                },
            };
            Some(SubscriberRegistration { imsi, registration_secret })
        },
        _ => None,
    }
}

/// An IMEI lock: `{imei}`.
pub open spec fn imei_lock_of(v: JsonV) -> Option<IMEILockV> {
    match v {
        JsonV::Obj(m) => match str_field(m, "imei"@) {
            Some(s) => Some(IMEILockV { imei: s }),
            None => None,
        },
        _ => None,
    }
}

/// Reads an IMEI lock out of a parsed JSON value.
fn imei_lock_from(v: &Json) -> (r: Option<IMEILock>)
    ensures
        match r {
            Some(l) => imei_lock_of(v@) == Some(l@),
            None => imei_lock_of(v@) is None,
        },
{
    proof {
        reveal_strlit("imei");
    }
    match v {
        Json::Obj(ms) => match get_str_field(ms, "imei") {
            Some(s) => Some(IMEILock { imei: s }),
            None => None,
        },
        _ => None,
    }
}

/// A radio cell: `{radioType, mcc, mnc, tac, eci}`.
pub open spec fn cell_of(v: JsonV) -> Option<CellV> {
    match v {
        JsonV::Obj(m) => if str_field(m, "radioType"@) is None || u16_field(m, "mcc"@) is None
            || u16_field(m, "mnc"@) is None || u16_field(m, "tac"@) is None || u16_field(
            m,
            "eci"@,
        ) is None {
            None
        } else {
            Some(
                CellV {
                    radio_type: str_field(m, "radioType"@).unwrap(),
                    mcc: u16_field(m, "mcc"@).unwrap(),
                    mnc: u16_field(m, "mnc"@).unwrap(),
                    tac: u16_field(m, "tac"@).unwrap(),
                    eci: u16_field(m, "eci"@).unwrap(),
                },
            )
        },
        _ => None,
    }
}

/// Reads a radio cell out of a parsed JSON value.
fn cell_from(v: &Json) -> (r: Option<Cell>)
    ensures
        match r {
            Some(c) => cell_of(v@) == Some(c@),
            None => cell_of(v@) is None,
        },
{
    proof {
        reveal_strlit("radioType");
        reveal_strlit("mcc");
        reveal_strlit("mnc");
        reveal_strlit("tac");
        reveal_strlit("eci");
    }
    match v {
        Json::Obj(ms) => {
            let radio_type = match get_str_field(ms, "radioType") {
                Some(x) => x,
                None => {
                    return None;
                },
            };
            let mcc = match get_u16_field(ms, "mcc") {
                Some(x) => x,
                None => {
                    return None;
                },
            };
            let mnc = match get_u16_field(ms, "mnc") {
                Some(x) => x,
                None => {
                    return None;
                },
            };
            let tac = match get_u16_field(ms, "tac") {
                Some(x) => x,
                None => {
                    return None;
                },
            };
            let eci = match get_u16_field(ms, "eci") {
                Some(x) => x,
                None => {
                    return None;
                },
            };
            Some(Cell { radio_type, mcc, mnc, tac, eci })
        },
        _ => None,
    }
}

/// An array of strings, each valid UTF-8.
pub open spec fn str_array_of(vs: Seq<JsonV>) -> Option<Seq<Seq<char>>>
    decreases vs.len(),
{
    if vs.len() == 0 {
        Some(Seq::empty())
    } else {
        match vs[0] {
            JsonV::Str(b) => if valid_utf8(b) {
                match str_array_of(vs.drop_first()) {
                    Some(rest) => Some(seq![decode_utf8(b)] + rest),
                    None => None,
                }
            } else {
                None
            },
            _ => None,
        }
    }
}

/// Reads an array of strings out of parsed JSON values.
fn str_array_from(items: &Vec<Json>) -> (r: Option<Vec<String>>)
    ensures
        match r {
            Some(out) => str_array_of(views_of(items@)) == Some(strs_views(out@)),
            None => str_array_of(views_of(items@)) is None,
        },
{
    let ghost vs = views_of(items@);
    proof {
        lemma_views_of(items@);
        assert(vs.skip(0) =~= vs);
        assert(strs_views(Seq::<String>::empty()) =~= Seq::<Seq<char>>::empty());
    }
    let n = items.len();
    let mut out: Vec<String> = Vec::new();
    let mut idx: usize = 0;
    while idx < n
        invariant
            idx <= n,
            n == items@.len(),
            vs == views_of(items@),
            vs.len() == n,
            forall|i: int| 0 <= i < n ==> #[trigger] vs[i] == items@[i]@,
            out@.len() == idx,
            match str_array_of(vs.skip(idx as int)) {
                Some(rest) => str_array_of(vs) == Some(strs_views(out@) + rest),
                None => str_array_of(vs) is None,
            },
        decreases n - idx,
    {
        proof {
            assert(vs.skip(idx as int)[0] == vs[idx as int]);
            assert(vs.skip(idx as int).drop_first() =~= vs.skip(idx as int + 1));
        }
        let ghost out0 = out@;
        match &items[idx] {
            Json::Str(b) => {
                let bytes = vstd::slice::slice_to_vec(b.as_slice());
                match string_from_utf8(bytes) {
                    Some(s) => {
                        out.push(s);
                        proof {
                            assert(strs_views(out@) =~= strs_views(out0) + seq![out@[idx as int]@]);
                            match str_array_of(vs.skip(idx as int + 1)) {
                                Some(rest) => {
                                    assert(strs_views(out0) + (seq![out@[idx as int]@] + rest)
                                        =~= strs_views(out@) + rest);
                                },
                                None => {},
                            }
                        }
                    },
                    None => {
                        return None;
                    },
                }
            },
            _ => {
                return None;
            },
        }
        idx += 1;
    }
    proof {
        assert(vs.skip(n as int) =~= Seq::<JsonV>::empty());
        assert(strs_views(out@) + Seq::<Seq<char>>::empty() =~= strs_views(out@));
    }
    Some(out)
}

/// A tag map: every member value a string, keys and values valid UTF-8.
/// Members are kept in wire order; a repeated key yields repeated pairs.
pub open spec fn tags_of(tms: Seq<(Seq<u8>, JsonV)>) -> Option<Seq<(Seq<char>, Seq<char>)>>
    decreases tms.len(),
{
    if tms.len() == 0 {
        Some(Seq::empty())
    } else {
        match tms[0].1 {
            JsonV::Str(b) => if valid_utf8(tms[0].0) && valid_utf8(b) {
                match tags_of(tms.drop_first()) {
                    Some(rest) => Some(seq![(decode_utf8(tms[0].0), decode_utf8(b))] + rest),
                    None => None,
                }
            } else {
                None
            },
            _ => None,
        }
    }
}

/// Reads a tag map out of parsed JSON object members.
pub(crate) fn tags_from(tms: &Vec<(Vec<u8>, Json)>) -> (r: Option<Tags>)
    ensures
        match r {
            Some(out) => tags_of(member_views(tms@)) == Some(pairs_views(out@)),
            None => tags_of(member_views(tms@)) is None,
        },
{
    let ghost vs = member_views(tms@);
    proof {
        lemma_member_views(tms@);
        assert(vs.skip(0) =~= vs);
        assert(pairs_views(Seq::<(String, String)>::empty()) =~= Seq::<
            (Seq<char>, Seq<char>),
        >::empty());
    }
    let n = tms.len();
    let mut out: Tags = Vec::new();
    let mut idx: usize = 0;
    while idx < n
        invariant
            idx <= n,
            n == tms@.len(),
            vs == member_views(tms@),
            vs.len() == n,
            forall|i: int| 0 <= i < n ==> #[trigger] vs[i] == (tms@[i].0@, tms@[i].1@),
            out@.len() == idx,
            match tags_of(vs.skip(idx as int)) {
                Some(rest) => tags_of(vs) == Some(pairs_views(out@) + rest),
                None => tags_of(vs) is None,
            },
        decreases n - idx,
    {
        proof {
            assert(vs.skip(idx as int)[0] == vs[idx as int]);
            assert(vs.skip(idx as int).drop_first() =~= vs.skip(idx as int + 1));
        }
        let ghost out0 = out@;
        let pair = &tms[idx];
        match &pair.1 {
            Json::Str(b) => {
                let kbytes = vstd::slice::slice_to_vec(pair.0.as_slice());
                let vbytes = vstd::slice::slice_to_vec(b.as_slice());
                let key = match string_from_utf8(kbytes) {
                    Some(k) => k,
                    None => {
                        return None;
                    },
                };
                let value = match string_from_utf8(vbytes) {
                    Some(x) => x,
                    None => {
                        return None;
                    },
                };
                out.push((key, value));
                proof {
                    assert(pairs_views(out@) =~= pairs_views(out0) + seq![
                        (out@[idx as int].0@, out@[idx as int].1@),
                    ]);
                    match tags_of(vs.skip(idx as int + 1)) {
                        Some(rest) => {
                            assert(pairs_views(out0) + (seq![
                                (out@[idx as int].0@, out@[idx as int].1@),
                            ] + rest) =~= pairs_views(out@) + rest);
                        },
                        None => {},
                    }
                }
            },
            _ => {
                return None;
            },
        }
        idx += 1;
    }
    proof {
        assert(vs.skip(n as int) =~= Seq::<(Seq<u8>, JsonV)>::empty());
        assert(pairs_views(out@) + Seq::<(Seq<char>, Seq<char>)>::empty() =~= pairs_views(out@));
    }
    Some(out)
}

/// An optional array-of-strings member: absent or `null` means absence.
pub open spec fn opt_str_array_field(m: Seq<(Seq<u8>, JsonV)>, key: Seq<char>) -> Option<
    Option<Seq<Seq<char>>>,
> {
    match lookup(m, ascii_bytes(key)) {
        None => Some(None),
        Some(JsonV::Null) => Some(None),
        Some(JsonV::Arr(vs)) => match str_array_of(vs) {
            Some(a) => Some(Some(a)),
            None => None,
        },
        Some(_) => None,
    }
}

/// An optional radio-cell member: absent or `null` means absence.
pub open spec fn opt_cell_field(m: Seq<(Seq<u8>, JsonV)>, key: Seq<char>) -> Option<Option<CellV>> {
    match lookup(m, ascii_bytes(key)) {
        None => Some(None),
        Some(JsonV::Null) => Some(None),
        Some(v) => match cell_of(v) {
            Some(c) => Some(Some(c)),
            None => None,
        },
    }
}

/// An optional IMEI-lock member: absent or `null` means absence.
pub open spec fn opt_imei_lock_field(m: Seq<(Seq<u8>, JsonV)>, key: Seq<char>) -> Option<
    Option<IMEILockV>,
> {
    match lookup(m, ascii_bytes(key)) {
        None => Some(None),
        Some(JsonV::Null) => Some(None),
        Some(v) => match imei_lock_of(v) {
            Some(l) => Some(Some(l)),
            None => None,
        },
    }
}

/// A session status: `{dnsServers, imei, lastUpdatedAt, location, cell,
/// online, ueIpAddress}`, everything but `online` optional.
pub open spec fn session_status_of(v: JsonV) -> Option<SessionStatusV> {
    match v {
        JsonV::Obj(m) => if opt_str_array_field(m, "dnsServers"@) is None || opt_str_field(
            m,
            "imei"@,
        ) is None || opt_int_field(m, "lastUpdatedAt"@) is None || opt_str_field(
            m,
            "location"@,
        ) is None || opt_cell_field(m, "cell"@) is None || bool_field(m, "online"@) is None
            || opt_str_field(m, "ueIpAddress"@) is None {
            None
        } else {
            Some(
                SessionStatusV {
                    dns_servers: opt_str_array_field(m, "dnsServers"@).unwrap(),
                    imei: opt_str_field(m, "imei"@).unwrap(),
                    last_updated_at: opt_int_field(m, "lastUpdatedAt"@).unwrap(),
                    location: opt_str_field(m, "location"@).unwrap(),
                    cell: opt_cell_field(m, "cell"@).unwrap(),
                    online: bool_field(m, "online"@).unwrap(),
                    ue_ip_address: opt_str_field(m, "ueIpAddress"@).unwrap(),
                },
            )
        },
        _ => None,
    }
}

/// An optional session-status member: absent or `null` means absence.
pub open spec fn opt_session_field(m: Seq<(Seq<u8>, JsonV)>, key: Seq<char>) -> Option<
    Option<SessionStatusV>,
> {
    match lookup(m, ascii_bytes(key)) {
        None => Some(None),
        Some(JsonV::Null) => Some(None),
        Some(v) => match session_status_of(v) {
            Some(st) => Some(Some(st)),
            None => None,
        },
    }
}

/// The tag map of a subscriber: an object of string pairs, defaulting to
/// the empty map when the member is absent.
pub open spec fn tags_field(m: Seq<(Seq<u8>, JsonV)>) -> Option<Seq<(Seq<char>, Seq<char>)>> {
    match lookup(m, ascii_bytes("tags"@)) {
        None => Some(Seq::empty()),
        Some(JsonV::Obj(tm)) => tags_of(tm),
        Some(_) => None,
    }
}

/// Reads a session status out of a parsed JSON value.
fn session_status_from(v: &Json) -> (r: Option<SessionStatus>)
    ensures
        match r {
            Some(st) => session_status_of(v@) == Some(st@),
            None => session_status_of(v@) is None,
        },
{
    proof {
        reveal_strlit("dnsServers");
        reveal_strlit("imei");
        reveal_strlit("lastUpdatedAt");
        reveal_strlit("location");
        reveal_strlit("cell");
        reveal_strlit("online");
        reveal_strlit("ueIpAddress");
    }
    match v {
        Json::Obj(ms) => {
            let dns_servers = match obj_get(ms, "dnsServers") {
                None => None,
                Some(Json::Null) => None,
                Some(Json::Arr(items)) => match str_array_from(items) {
                    Some(a) => Some(a),
                    None => {
                        return None;
                    },
                },
                Some(_) => {
                    return None;
                },
            };
            let imei = match get_opt_str_field(ms, "imei") {
                Some(x) => x,
                None => {
                    return None;
                },
            };
            let last_updated_at = match get_opt_int_field(ms, "lastUpdatedAt") {
                Some(Some(x)) => Some(Timestamp::from_epoch_millis(x)),
                Some(None) => None,
                None => {
                    return None;
                },
            };
            let location = match get_opt_str_field(ms, "location") {
                Some(x) => x,
                None => {
                    return None;
                },
            };
            let cell = match obj_get(ms, "cell") {
                None => None,
                Some(Json::Null) => None,
                Some(w) => match cell_from(w) {
                    Some(c) => Some(c),
                    None => {
                        return None;
                    },
                },
            };
            let online = match get_bool_field(ms, "online") {
                Some(b) => b,
                None => {
                    return None;
                },
            };
            let ue_ip_address = match get_opt_str_field(ms, "ueIpAddress") {
                Some(x) => x,
                None => {
                    return None;
                },
            };
            Some(
                SessionStatus {
                    dns_servers,
                    imei,
                    last_updated_at,
                    location,
                    cell,
                    online,
                    ue_ip_address,
                },
            )
        },
        _ => None,
    }
}

/// A subscriber record, with the field rules of the wire format.
pub open spec fn subscriber_of(v: JsonV) -> Option<SubscriberV> {
    match v {
        JsonV::Obj(m) => if str_field(m, "apn"@) is None || int_field(m, "createdAt"@) is None
            || opt_int_field(m, "expiredAt"@) is None || opt_str_field(m, "expiryAction"@) is None
            || opt_str_field(m, "groupId"@) is None || opt_str_field(m, "iccid"@) is None
            || opt_imei_lock_field(m, "imeiLock"@) is None || str_field(m, "imsi"@) is None
            || opt_str_field(m, "ipAddress"@) is None || opt_int_field(
            m,
            "lastModifiedAt"@,
        ) is None || str_field(m, "moduleType"@) is None || str_field(m, "msisdn"@) is None
            || str_field(m, "operatorId"@) is None || int_field(m, "plan"@) is None || str_field(
            m,
            "serialNumber"@,
        ) is None || opt_session_field(m, "sessionStatus"@) is None || str_field(
            m,
            "speedClass"@,
        ) is None || str_field(m, "status"@) is None || tags_field(m) is None || bool_field(
            m,
            "terminationEnabled"@,
        ) is None {
            None
        } else {
            Some(
                SubscriberV {
                    apn: str_field(m, "apn"@).unwrap(),
                    created_at: int_field(m, "createdAt"@).unwrap(),
                    expired_at: opt_int_field(m, "expiredAt"@).unwrap(),
                    expiry_action: opt_str_field(m, "expiryAction"@).unwrap(),
                    group_id: opt_str_field(m, "groupId"@).unwrap(),
                    iccid: opt_str_field(m, "iccid"@).unwrap(),
                    imei_lock: opt_imei_lock_field(m, "imeiLock"@).unwrap(),
                    imsi: str_field(m, "imsi"@).unwrap(),
                    ip_address: opt_str_field(m, "ipAddress"@).unwrap(),
                    last_modified_at: opt_int_field(m, "lastModifiedAt"@).unwrap(),
                    module_type: str_field(m, "moduleType"@).unwrap(),
                    msisdn: str_field(m, "msisdn"@).unwrap(),
                    operator_id: str_field(m, "operatorId"@).unwrap(),
                    plan: int_field(m, "plan"@).unwrap(),
                    serial_number: str_field(m, "serialNumber"@).unwrap(),
                    session_status: opt_session_field(m, "sessionStatus"@).unwrap(),
                    speed_class: str_field(m, "speedClass"@).unwrap(),
                    status: str_field(m, "status"@).unwrap(),
                    tags: tags_field(m).unwrap(),
                    termination_enabled: bool_field(m, "terminationEnabled"@).unwrap(),
                },
            )
        },
        _ => None,
    }
}

/// Reads a subscriber record out of a parsed JSON value.
pub fn subscriber_from(v: &Json) -> (r: Option<Subscriber>)
    ensures
        match r {
            Some(sub) => subscriber_of(v@) == Some(sub@),
            None => subscriber_of(v@) is None,
        },
{
    proof {
        reveal_strlit("apn");
        reveal_strlit("createdAt");
        reveal_strlit("expiredAt");
        reveal_strlit("expiryAction");
        reveal_strlit("groupId");
        reveal_strlit("iccid");
        reveal_strlit("imeiLock");
        reveal_strlit("imsi");
        reveal_strlit("ipAddress");
        reveal_strlit("lastModifiedAt");
        reveal_strlit("moduleType");
        reveal_strlit("msisdn");
        reveal_strlit("operatorId");
        reveal_strlit("plan");
        reveal_strlit("serialNumber");
        reveal_strlit("sessionStatus");
        reveal_strlit("speedClass");
        reveal_strlit("status");
        reveal_strlit("tags");
        reveal_strlit("terminationEnabled");
    }
    match v {
        Json::Obj(ms) => {
            let apn = match get_str_field(ms, "apn") {
                Some(x) => x,
                None => {
                    return None;
                },
            };
            let created_at = match get_int_field(ms, "createdAt") {
                Some(x) => Timestamp::from_epoch_millis(x),
                None => {
                    return None;
                },
            };
            let expired_at = match get_opt_int_field(ms, "expiredAt") {
                Some(Some(x)) => Some(Timestamp::from_epoch_millis(x)),
                Some(None) => None,
                None => {
                    return None;
                },
            };
            let expiry_action = match get_opt_str_field(ms, "expiryAction") {
                Some(x) => x,
                None => {
                    return None;
                },
            };
            let group_id = match get_opt_str_field(ms, "groupId") {
                Some(x) => x,
                None => {
                    return None;
                },
            };
            let iccid = match get_opt_str_field(ms, "iccid") {
                Some(x) => x,
                None => {
                    return None;
                },
            };
            let imei_lock = match obj_get(ms, "imeiLock") {
                None => None,
                Some(Json::Null) => None,
                Some(w) => match imei_lock_from(w) {
                    Some(l) => Some(l),
                    None => {
                        return None;
                    },
                },
            };
            let imsi = match get_str_field(ms, "imsi") {
                Some(x) => x,
                None => {
                    return None;
                },
            };
            let ip_address = match get_opt_str_field(ms, "ipAddress") {
                Some(x) => x,
                None => {
                    return None;
                },
            };
            let last_modified_at = match get_opt_int_field(ms, "lastModifiedAt") {
                Some(Some(x)) => Some(Timestamp::from_epoch_millis(x)),
                Some(None) => None,
                None => {
                    return None;
                },
            };
            let module_type = match get_str_field(ms, "moduleType") {
                Some(x) => x,
                None => {
                    return None;
                },
            };
            let msisdn = match get_str_field(ms, "msisdn") {
                Some(x) => x,
                None => {
                    return None;
                },
            };
            let operator_id = match get_str_field(ms, "operatorId") {
                Some(x) => x,
                None => {
                    return None;
                },
            };
            let plan = match get_int_field(ms, "plan") {
                Some(x) => x,
                None => {
                    return None;
                },
            };
            let serial_number = match get_str_field(ms, "serialNumber") {
                Some(x) => x,
                None => {
                    return None;
                },
            };
            let session_status = match obj_get(ms, "sessionStatus") {
                None => None,
                Some(Json::Null) => None,
                Some(w) => match session_status_from(w) {
                    Some(st) => Some(st),
                    None => {
                        return None;
                    },
                },
            };
            let speed_class = match get_str_field(ms, "speedClass") {
                Some(x) => x,
                None => {
                    return None;
                },
            };
            let status = match get_str_field(ms, "status") {
                Some(x) => x,
                None => {
                    return None;
                },
            };
            let tags = match obj_get(ms, "tags") {
                None => Vec::new(),
                Some(Json::Obj(tm)) => match tags_from(tm) {
                    Some(t) => t,
                    None => {
                        return None;
                    },
                },
                Some(_) => {
                    return None;
                },
            };
            let termination_enabled = match get_bool_field(ms, "terminationEnabled") {
                Some(b) => b,
                None => {
                    return None;
                },
            };
            proof {
                assert(pairs_views(Seq::<(String, String)>::empty()) =~= Seq::<
                    (Seq<char>, Seq<char>),
                >::empty());
            }
            Some(
                Subscriber {
                    apn,
                    created_at,
                    expired_at,
                    expiry_action,
                    group_id,
                    iccid,
                    imei_lock,
                    imsi,
                    ip_address,
                    last_modified_at,
                    module_type,
                    msisdn,
                    operator_id,
                    plan,
                    serial_number,
                    session_status,
                    speed_class,
                    status,
                    tags,
                    termination_enabled,
                },
            )
        },
        _ => None,
    }
}

/// The element views of a vector of subscribers.
pub open spec fn subs_views(v: Seq<Subscriber>) -> Seq<SubscriberV> {
    Seq::new(v.len(), |i: int| v[i]@)
}

/// A JSON array of subscriber records.
pub open spec fn sub_list_of(vs: Seq<JsonV>) -> Option<Seq<SubscriberV>>
    decreases vs.len(),
{
    if vs.len() == 0 {
        Some(Seq::empty())
    } else {
        match subscriber_of(vs[0]) {
            Some(sub) => match sub_list_of(vs.drop_first()) {
                Some(rest) => Some(seq![sub] + rest),
                None => None,
            },
            None => None,
        }
    }
}

/// Reads a list of subscriber records out of parsed JSON values.
fn subscriber_list_from(items: &Vec<Json>) -> (r: Option<Vec<Subscriber>>)
    ensures
        match r {
            Some(out) => sub_list_of(views_of(items@)) == Some(subs_views(out@)),
            None => sub_list_of(views_of(items@)) is None,
        },
{
    let ghost vs = views_of(items@);
    proof {
        lemma_views_of(items@);
        assert(vs.skip(0) =~= vs);
        assert(subs_views(Seq::<Subscriber>::empty()) =~= Seq::<SubscriberV>::empty());
    }
    let n = items.len();
    let mut out: Vec<Subscriber> = Vec::new();
    let mut idx: usize = 0;
    while idx < n
        invariant
            idx <= n,
            n == items@.len(),
            vs == views_of(items@),
            vs.len() == n,
            forall|i: int| 0 <= i < n ==> #[trigger] vs[i] == items@[i]@,
            out@.len() == idx,
            match sub_list_of(vs.skip(idx as int)) {
                Some(rest) => sub_list_of(vs) == Some(subs_views(out@) + rest),
                None => sub_list_of(vs) is None,
            },
        decreases n - idx,
    {
        proof {
            assert(vs.skip(idx as int)[0] == vs[idx as int]);
            assert(vs.skip(idx as int).drop_first() =~= vs.skip(idx as int + 1));
        }
        let ghost out0 = out@;
        match subscriber_from(&items[idx]) {
            Some(sub) => {
                out.push(sub);
                proof {
                    assert(subs_views(out@) =~= subs_views(out0) + seq![out@[idx as int]@]);
                    match sub_list_of(vs.skip(idx as int + 1)) {
                        Some(rest) => {
                            assert(subs_views(out0) + (seq![out@[idx as int]@] + rest)
                                =~= subs_views(out@) + rest);
                        },
                        None => {},
                    }
                }
            },
            None => {
                return None;
            },
        }
        idx += 1;
    }
    proof {
        assert(vs.skip(n as int) =~= Seq::<JsonV>::empty());
        assert(subs_views(out@) + Seq::<SubscriberV>::empty() =~= subs_views(out@));
    }
    Some(out)
}

/// What decoding a subscriber body yields: the parsed document read as a
/// subscriber record, or nothing.
pub open spec fn spec_decode_subscriber(bytes: Seq<u8>) -> Option<SubscriberV> {
    match spec_parse_json(bytes) {
        Some(v) => subscriber_of(v),
        None => None,
    }
}

/// Decodes a response body into a subscriber record.  Returns `Ok` exactly
/// when the body is well-formed JSON of the expected shape, and a `Decode`
/// error otherwise.
pub fn decode_subscriber(body: &str) -> (r: Result<Subscriber, Error>)
    ensures
        match r {
            Ok(sub) => spec_decode_subscriber(encode_utf8(body@)) == Some(sub@),
            Err(e) => spec_decode_subscriber(encode_utf8(body@)) is None && (
            e.kind matches ErrorKind::Decode(_)),
        },
{
    match parse_json(body.as_bytes()) {
        None => Err(bad_json_error()),
        Some(v) => match subscriber_from(&v) {
            Some(sub) => Ok(sub),
            None => Err(bad_shape_error()),
        },
    }
}

/// What decoding a subscriber-list body yields.
pub open spec fn spec_decode_subscriber_list(bytes: Seq<u8>) -> Option<Seq<SubscriberV>> {
    match spec_parse_json(bytes) {
        Some(JsonV::Arr(vs)) => sub_list_of(vs),
        _ => None,
    }
}

/// Decodes a response body into a list of subscriber records.  An empty
/// array is a valid empty list, not an error.
pub fn decode_subscriber_list(body: &str) -> (r: Result<Vec<Subscriber>, Error>)
    ensures
        match r {
            Ok(subs) => spec_decode_subscriber_list(encode_utf8(body@)) == Some(subs_views(subs@)),
            Err(e) => spec_decode_subscriber_list(encode_utf8(body@)) is None && (
            e.kind matches ErrorKind::Decode(_)),
        },
{
    match parse_json(body.as_bytes()) {
        None => Err(bad_json_error()),
        Some(v) => match &v {
            Json::Arr(items) => match subscriber_list_from(items) {
                Some(subs) => Ok(subs),
                None => Err(bad_shape_error()),
            },
            _ => Err(bad_shape_error()),
        },
    }
}

/// What decoding an authentication response body yields.
pub open spec fn spec_decode_auth_response(bytes: Seq<u8>) -> Option<AuthResponseV> {
    match spec_parse_json(bytes) {
        Some(v) => auth_response_of(v),
        None => None,
    }
}

/// Decodes a response body into an authentication response.
pub fn decode_auth_response(body: &str) -> (r: Result<AuthResponse, Error>)
    ensures
        match r {
            Ok(a) => spec_decode_auth_response(encode_utf8(body@)) == Some(a@),
            Err(e) => spec_decode_auth_response(encode_utf8(body@)) is None && (
            e.kind matches ErrorKind::Decode(_)),
        },
{
    match parse_json(body.as_bytes()) {
        None => Err(bad_json_error()),
        Some(v) => match auth_response_from(&v) {
            Some(a) => Ok(a),
            None => Err(bad_shape_error()),
        },
    }
}

/// What decoding an authentication request body yields.
pub open spec fn spec_decode_auth_request(bytes: Seq<u8>) -> Option<AuthRequestV> {
    match spec_parse_json(bytes) {
        Some(v) => auth_request_of(v),
        None => None,
    }
}

/// Decodes an authentication request body, the inverse of
/// `encode_auth_request` on its own output.
pub fn decode_auth_request(body: &str) -> (r: Result<AuthRequest, Error>)
    ensures
        match r {
            Ok(a) => spec_decode_auth_request(encode_utf8(body@)) == Some(a@),
            Err(e) => spec_decode_auth_request(encode_utf8(body@)) is None && (
            e.kind matches ErrorKind::Decode(_)),
        },
{
    match parse_json(body.as_bytes()) {
        None => Err(bad_json_error()),
        Some(v) => match auth_request_from(&v) {
            Some(a) => Ok(a),
            None => Err(bad_shape_error()),
        },
    }
}

/// What decoding a registration body yields.
pub open spec fn spec_decode_registration(bytes: Seq<u8>) -> Option<SubscriberRegistrationV> {
    match spec_parse_json(bytes) {
        Some(v) => registration_of(v),
        None => None,
    }
}

/// Decodes a response body into a registration payload.
pub fn decode_registration(body: &str) -> (r: Result<SubscriberRegistration, Error>)
    ensures
        match r {
            Ok(a) => spec_decode_registration(encode_utf8(body@)) == Some(a@),
            Err(e) => spec_decode_registration(encode_utf8(body@)) is None && (
            e.kind matches ErrorKind::Decode(_)),
        },
{
    match parse_json(body.as_bytes()) {
        None => Err(bad_json_error()),
        Some(v) => match registration_from(&v) {
            Some(a) => Ok(a),
            None => Err(bad_shape_error()),
        },
    }
}

/// The canonical JSON bytes of an authentication request:
/// `{"authKeyId":"..","authKey":"..","tokenTimeoutSeconds":..}`.
pub open spec fn auth_request_bytes(r: AuthRequestV) -> Seq<u8> {
    encode_utf8("{\"authKeyId\":\""@) + esc_bytes(encode_utf8(r.auth_key_id)) + encode_utf8(
        "\",\"authKey\":\""@,
    ) + esc_bytes(encode_utf8(r.auth_key)) + encode_utf8("\",\"tokenTimeoutSeconds\":"@)
        + dec_digits(r.token_timeout_seconds as nat) + encode_utf8("}"@)
}

/// Serializes an authentication request to its canonical JSON bytes.
pub fn encode_auth_request(r: &AuthRequest) -> (out: Vec<u8>)
    ensures
        out@ == auth_request_bytes(r@),
{
    let mut out: Vec<u8> = Vec::new();
    push_lit(&mut out, "{\"authKeyId\":\"");
    push_esc(&mut out, r.auth_key_id.as_str());
    push_lit(&mut out, "\",\"authKey\":\"");
    push_esc(&mut out, r.auth_key.as_str());
    push_lit(&mut out, "\",\"tokenTimeoutSeconds\":");
    push_dec_u64(&mut out, r.token_timeout_seconds as u64);
    push_lit(&mut out, "}");
    proof {
        assert(out@ =~= auth_request_bytes(r@));
    }
    out
}

/// The JSON bytes of the body that registers a subscriber:
/// `{"registrationSecret":".."}`.
pub open spec fn registration_body_bytes(r: SubscriberRegistrationV) -> Seq<u8> {
    encode_utf8("{\"registrationSecret\":\""@) + esc_bytes(encode_utf8(r.registration_secret))
        + encode_utf8("\"}"@)
}

impl SubscriberRegistration {
    /// Serializes the request body that registers this subscriber.
    pub fn fmt_registration_body(&self) -> (out: Vec<u8>)
        ensures
            out@ == registration_body_bytes(self@),
    {
        let mut out: Vec<u8> = Vec::new();
        push_lit(&mut out, "{\"registrationSecret\":\"");
        push_esc(&mut out, self.registration_secret.as_str());
        push_lit(&mut out, "\"}");
        proof {
            assert(out@ =~= registration_body_bytes(self@));
        }
        out
    }
}

/// The byte layout of a serialized authentication request: where each
/// literal piece, key, string value and digit run sits in `s`.
pub open spec fn auth_wire_layout(s: Seq<u8>, k: Seq<u8>, sct: Seq<u8>, n: nat) -> bool {
    let kn = esc_bytes(k).len() as int;
    let sn = esc_bytes(sct).len() as int;
    let dn = dec_digits(n).len() as int;
    let key1 = ascii_bytes("authKeyId"@);
    let key2 = ascii_bytes("authKey"@);
    let key3 = ascii_bytes("tokenTimeoutSeconds"@);
    &&& key1.len() == 9
    &&& key2.len() == 7
    &&& key3.len() == 19
    &&& crate::json::json_safe(key1)
    &&& crate::json::json_safe(key2)
    &&& crate::json::json_safe(key3)
    &&& s.len() == 52 + kn + sn + dn
    &&& s[0] == 0x7b
    &&& s[1] == 0x22
    &&& s.subrange(2, 11) == key1
    &&& s[11] == 0x22
    &&& s[12] == 0x3a
    &&& s[13] == 0x22
    &&& s.subrange(14, 14 + kn) == esc_bytes(k)
    &&& s[14 + kn] == 0x22
    &&& s[15 + kn] == 0x2c
    &&& s[16 + kn] == 0x22
    &&& s.subrange(17 + kn, 24 + kn) == key2
    &&& s[24 + kn] == 0x22
    &&& s[25 + kn] == 0x3a
    &&& s[26 + kn] == 0x22
    &&& s.subrange(27 + kn, 27 + kn + sn) == esc_bytes(sct)
    &&& s[27 + kn + sn] == 0x22
    &&& s[28 + kn + sn] == 0x2c
    &&& s[29 + kn + sn] == 0x22
    &&& s.subrange(30 + kn + sn, 49 + kn + sn) == key3
    &&& s[49 + kn + sn] == 0x22
    &&& s[50 + kn + sn] == 0x3a
    &&& s.subrange(51 + kn + sn, 51 + kn + sn + dn) == dec_digits(n)
    &&& s[51 + kn + sn + dn] == 0x7d
}

/// A serialized authentication request has the wire layout above.
#[verifier::rlimit(100)]
proof fn lemma_auth_request_layout(r: AuthRequestV)
    ensures
        auth_wire_layout(
            auth_request_bytes(r),
            encode_utf8(r.auth_key_id),
            encode_utf8(r.auth_key),
            r.token_timeout_seconds as nat,
        ),
{
    broadcast use vstd::utf8::is_ascii_chars_encode_utf8;

    reveal_strlit("{\"authKeyId\":\"");
    reveal_strlit("\",\"authKey\":\"");
    reveal_strlit("\",\"tokenTimeoutSeconds\":");
    reveal_strlit("}");
    reveal_strlit("authKeyId");
    reveal_strlit("authKey");
    reveal_strlit("tokenTimeoutSeconds");
    let l1 = encode_utf8("{\"authKeyId\":\""@);
    let k = encode_utf8(r.auth_key_id);
    let l2 = encode_utf8("\",\"authKey\":\""@);
    let sct = encode_utf8(r.auth_key);
    let l3 = encode_utf8("\",\"tokenTimeoutSeconds\":"@);
    let d = dec_digits(r.token_timeout_seconds as nat);
    let l4 = encode_utf8("}"@);
    let s = auth_request_bytes(r);
    let kn = esc_bytes(k).len() as int;
    let sn = esc_bytes(sct).len() as int;
    let dn = d.len() as int;
    crate::textenc::lemma_dec_digits(r.token_timeout_seconds as nat);
    assert(is_ascii_chars("{\"authKeyId\":\""@));
    assert(is_ascii_chars("\",\"authKey\":\""@));
    assert(is_ascii_chars("\",\"tokenTimeoutSeconds\":"@));
    assert(is_ascii_chars("}"@));
    assert(is_ascii_chars("authKeyId"@));
    assert(is_ascii_chars("authKey"@));
    assert(is_ascii_chars("tokenTimeoutSeconds"@));
    assert(l1.len() == 14);
    assert(l2.len() == 13);
    assert(l3.len() == 24);
    assert(l4.len() == 1);
    assert(s == l1 + esc_bytes(k) + l2 + esc_bytes(sct) + l3 + d + l4);
    assert(s.len() == 52 + kn + sn + dn);
    assert(s.subrange(2, 11) =~= ascii_bytes("authKeyId"@));
    assert(s.subrange(14, 14 + kn) =~= esc_bytes(k));
    assert(s.subrange(17 + kn, 24 + kn) =~= ascii_bytes("authKey"@));
    assert(s.subrange(27 + kn, 27 + kn + sn) =~= esc_bytes(sct));
    assert(s.subrange(30 + kn + sn, 49 + kn + sn) =~= ascii_bytes("tokenTimeoutSeconds"@));
    assert(s.subrange(51 + kn + sn, 51 + kn + sn + dn) =~= d);
}

/// A byte sequence with the wire layout parses as the three-member object
/// it was printed from.
#[verifier::rlimit(100)]
proof fn lemma_auth_wire_parse(s: Seq<u8>, k: Seq<u8>, sct: Seq<u8>, n: nat)
    requires
        auth_wire_layout(s, k, sct, n),
        n <= 0xffffffff,
    ensures
        spec_parse_json(s) == Some(
            JsonV::Obj(
                seq![
                    (ascii_bytes("authKeyId"@), JsonV::Str(k)),
                    (ascii_bytes("authKey"@), JsonV::Str(sct)),
                    (ascii_bytes("tokenTimeoutSeconds"@), JsonV::Int(n as int)),
                ],
            ),
        ),
{
    let kn = esc_bytes(k).len() as int;
    let sn = esc_bytes(sct).len() as int;
    let dn = dec_digits(n).len() as int;
    let key1 = ascii_bytes("authKeyId"@);
    let key2 = ascii_bytes("authKey"@);
    let key3 = ascii_bytes("tokenTimeoutSeconds"@);
    crate::textenc::lemma_dec_digits(n);

    crate::json::lemma_parse_string_at(s, 1, key1);
    crate::json::lemma_parse_string_esc_at(s, 13, k);
    crate::json::lemma_parse_string_at(s, 16 + kn, key2);
    crate::json::lemma_parse_string_esc_at(s, 26 + kn, sct);
    crate::json::lemma_parse_string_at(s, 29 + kn + sn, key3);
    assert(!is_digit(s[51 + kn + sn + dn]));
    crate::json::lemma_parse_int_at(s, 51 + kn + sn, n);

    let tv = JsonV::Int(n as int);
    assert(parse_value(s, 13) == Some((JsonV::Str(k), 15 + kn)));
    assert(parse_value(s, 26 + kn) == Some((JsonV::Str(sct), 28 + kn + sn)));
    assert(s[51 + kn + sn] == dec_digits(n)[0]);
    assert(parse_value(s, 51 + kn + sn) == Some((tv, 51 + kn + sn + dn)));

    let m3 = seq![(key3, tv)];
    let m2 = seq![(key2, JsonV::Str(sct))] + m3;
    let m1 = seq![(key1, JsonV::Str(k))] + m2;
    assert(skip_ws(s, 50 + kn + sn) == 50 + kn + sn);
    assert(crate::json::step_idx(s, 29 + kn + sn, 51 + kn + sn) == 51 + kn + sn);
    assert(skip_ws(s, 51 + kn + sn + dn) == 51 + kn + sn + dn);
    assert(parse_members(s, 29 + kn + sn) == Some((m3, s.len() as int)));
    assert(skip_ws(s, 25 + kn) == 25 + kn);
    assert(crate::json::step_idx(s, 16 + kn, 26 + kn) == 26 + kn);
    assert(skip_ws(s, 28 + kn + sn) == 28 + kn + sn);
    assert(skip_ws(s, 29 + kn + sn) == 29 + kn + sn);
    assert(crate::json::step_idx(s, 16 + kn, 29 + kn + sn) == 29 + kn + sn);
    assert(parse_members(s, 16 + kn) == Some((m2, s.len() as int)));
    assert(skip_ws(s, 12) == 12);
    assert(crate::json::step_idx(s, 1, 13) == 13);
    assert(skip_ws(s, 15 + kn) == 15 + kn);
    assert(skip_ws(s, 16 + kn) == 16 + kn);
    assert(crate::json::step_idx(s, 1, 16 + kn) == 16 + kn);
    assert(parse_members(s, 1) == Some((m1, s.len() as int)));

    assert(skip_ws(s, 1) == 1);
    assert(crate::json::step_idx(s, 0, 1) == 1);
    assert(parse_value(s, 0) == Some((JsonV::Obj(m1), s.len() as int)));
    assert(skip_ws(s, 0) == 0);
    assert(skip_ws(s, s.len() as int) == s.len());
    assert(spec_parse_json(s) == Some(JsonV::Obj(m1)));
    assert(m1 =~= seq![(key1, JsonV::Str(k)), (key2, JsonV::Str(sct)), (key3, tv)]);
}

/// Serializing an authentication request and decoding the result yields
/// the payload back: `authKeyId`, `authKey` and `tokenTimeoutSeconds` are
/// preserved verbatim, for every payload.
#[verifier::rlimit(100)]
pub proof fn lemma_auth_request_round_trip(r: AuthRequestV)
    ensures
        spec_decode_auth_request(auth_request_bytes(r)) == Some(r),
{
    broadcast use vstd::utf8::encode_utf8_valid_utf8;
    broadcast use vstd::utf8::encode_utf8_decode_utf8;

    let k = encode_utf8(r.auth_key_id);
    let sct = encode_utf8(r.auth_key);
    let n = r.token_timeout_seconds as nat;
    let s = auth_request_bytes(r);
    lemma_auth_request_layout(r);
    lemma_auth_wire_parse(s, k, sct, n);
    let key1 = ascii_bytes("authKeyId"@);
    let key2 = ascii_bytes("authKey"@);
    let key3 = ascii_bytes("tokenTimeoutSeconds"@);
    let tv = JsonV::Int(n as int);
    let m1 = seq![(key1, JsonV::Str(k)), (key2, JsonV::Str(sct)), (key3, tv)];
    assert(spec_parse_json(s) == Some(JsonV::Obj(m1)));
    assert(key1 != key2) by {
        assert(key1.len() != key2.len());
    }
    assert(key1 != key3) by {
        assert(key1.len() != key3.len());
    }
    assert(key2 != key3) by {
        assert(key2.len() != key3.len());
    }
    let m2s = seq![(key2, JsonV::Str(sct)), (key3, tv)];
    let m3s = seq![(key3, tv)];
    assert(m1.drop_first() =~= m2s);
    assert(m2s.drop_first() =~= m3s);
    assert(lookup(m1, key1) == Some(JsonV::Str(k)));
    assert(lookup(m1, key2) == lookup(m2s, key2));
    assert(lookup(m2s, key2) == Some(JsonV::Str(sct)));
    assert(lookup(m1, key3) == lookup(m2s, key3));
    assert(lookup(m2s, key3) == lookup(m3s, key3));
    assert(lookup(m3s, key3) == Some(tv));
    assert(str_field(m1, "authKeyId"@) == Some(r.auth_key_id));
    assert(str_field(m1, "authKey"@) == Some(r.auth_key));
    assert(int_field(m1, "tokenTimeoutSeconds"@) == Some(r.token_timeout_seconds as int));
    assert(auth_request_of(JsonV::Obj(m1)) == Some(r));
}

/// A subscriber object whose `expiredAt`, `lastModifiedAt` and
/// `sessionStatus` members are JSON `null` decodes those fields to
/// absence: the nulls are read as absence rather than failure, and a
/// successful decode carries `None` for all three.
pub proof fn lemma_null_fields_decode_absent(m: Seq<(Seq<u8>, JsonV)>)
    requires
        lookup(m, ascii_bytes("expiredAt"@)) == Some(JsonV::Null),
        lookup(m, ascii_bytes("lastModifiedAt"@)) == Some(JsonV::Null),
        lookup(m, ascii_bytes("sessionStatus"@)) == Some(JsonV::Null),
    ensures
        opt_int_field(m, "expiredAt"@) == Some(None::<int>),
        opt_int_field(m, "lastModifiedAt"@) == Some(None::<int>),
        opt_session_field(m, "sessionStatus"@) == Some(None::<SessionStatusV>),
        subscriber_of(JsonV::Obj(m)) matches Some(sub) ==> sub.expired_at is None
            && sub.last_modified_at is None && sub.session_status is None,
{
}

} // verus!