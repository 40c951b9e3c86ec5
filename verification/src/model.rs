//! Domain records returned and consumed by the API, and the timestamp model.
//!
//! Wire timestamps are signed 64-bit epoch-millisecond integers; the library
//! models an instant as exactly that count, and offers the whole-second /
//! millisecond-remainder split as derived views.

use vstd::arithmetic::div_mod::lemma_fundamental_div_mod;
use vstd::arithmetic::div_mod::lemma_fundamental_div_mod_converse;
use vstd::prelude::*;

verus! {

/// A UTC instant at millisecond precision: a signed count of milliseconds
/// since the Unix epoch.
#[derive(Debug, Clone, Copy, PartialEq, Eq, Structural)]
pub struct Timestamp {
    pub millis: i64,
}

impl Timestamp {
    /// Decodes an instant from a wire epoch-millisecond value.
    pub fn from_epoch_millis(ms: i64) -> (t: Timestamp)
        ensures
            t.millis == ms,
    {
        Timestamp { millis: ms }
    }

    /// Re-encodes the instant as the wire epoch-millisecond value.
    pub fn to_epoch_millis(&self) -> (r: i64)
        ensures
            r == self.millis,
    {
        self.millis
    }

    /// The whole seconds since the epoch (floor division, so an instant
    /// before the epoch rounds toward earlier time).
    pub fn unix_seconds(&self) -> (r: i64)
        ensures
            r as int == self.millis as int / 1000,
    {
        let ms = self.millis;
        if ms >= 0 {
            (ms as u64 / 1000) as i64
        } else {
            let neg: u64 = (-(ms + 1)) as u64 + 1;
            let q = neg / 1000;
            let rem = neg % 1000;
            proof {
                lemma_fundamental_div_mod(neg as int, 1000);
                if rem == 0 {
                    lemma_fundamental_div_mod_converse(ms as int, 1000, -(q as int), 0);
                } else {
                    lemma_fundamental_div_mod_converse(
                        ms as int,
                        1000,
                        -(q as int) - 1,
                        1000 - rem,
                    );
                }
            }
            if rem == 0 {
                -(q as i64)
            } else {
                -(q as i64) - 1
            }
        }
    }

    /// The millisecond remainder within the current second, in `0..1000`.
    pub fn subsec_millis(&self) -> (r: u16)
        ensures
            r as int == self.millis as int % 1000,
    {
        let ms = self.millis;
        if ms >= 0 {
            (ms as u64 % 1000) as u16
        } else {
            let neg: u64 = (-(ms + 1)) as u64 + 1;
            let q = neg / 1000;
            let rem = neg % 1000;
            proof {
                lemma_fundamental_div_mod(neg as int, 1000);
                if rem == 0 {
                    lemma_fundamental_div_mod_converse(ms as int, 1000, -(q as int), 0);
                } else {
                    lemma_fundamental_div_mod_converse(
                        ms as int,
                        1000,
                        -(q as int) - 1,
                        1000 - rem,
                    );
                }
            }
            if rem == 0 {
                0
            } else {
                (1000 - rem) as u16
            }
        }
    }
}

/// Decoding a wire epoch-millisecond value and re-encoding it reproduces the
/// same integer, and the second/millisecond split recombines exactly.
pub proof fn lemma_timestamp_round_trip(ms: i64)
    ensures
        (Timestamp { millis: ms }).millis == ms,
        1000 * (ms as int / 1000) + (ms as int % 1000) == ms as int,
        0 <= ms as int % 1000 < 1000,
{
    lemma_fundamental_div_mod(ms as int, 1000);
}

/// Map of tag names to tag values attached to a subscriber, as a pair
/// list in wire order.  A conforming wire object has unique keys; should
/// the wire repeat a key, decoding keeps every occurrence in order, and
/// the library's field readers take the first.
pub type Tags = Vec<(String, String)>;

/// The element views of a vector of strings.
pub open spec fn strs_views(v: Seq<String>) -> Seq<Seq<char>> {
    Seq::new(v.len(), |i: int| v[i]@)
}

/// The pair views of a vector of string pairs.
pub open spec fn pairs_views(t: Seq<(String, String)>) -> Seq<(Seq<char>, Seq<char>)> {
    Seq::new(t.len(), |i: int| (t[i].0@, t[i].1@))
}

/// Payload of the authentication handshake request.
#[derive(Debug, Clone)]
pub struct AuthRequest {
    pub auth_key_id: String,
    pub auth_key: String,
    pub token_timeout_seconds: u32,
}

/// The model of an authentication request.
pub struct AuthRequestV {
    pub auth_key_id: Seq<char>,
    pub auth_key: Seq<char>,
    pub token_timeout_seconds: u32,
}

impl View for AuthRequest {
    type V = AuthRequestV;

    open spec fn view(&self) -> AuthRequestV {
        AuthRequestV {
            auth_key_id: self.auth_key_id@,
            auth_key: self.auth_key@,
            token_timeout_seconds: self.token_timeout_seconds,
        }
    }
}

/// Payload of the authentication handshake response.
#[derive(Debug, Clone)]
pub struct AuthResponse {
    pub api_key: String,
    pub operator_id: String,
    pub token: String,
}

/// The model of an authentication response.
pub struct AuthResponseV {
    pub api_key: Seq<char>,
    pub operator_id: Seq<char>,
    pub token: Seq<char>,
}

impl View for AuthResponse {
    type V = AuthResponseV;

    open spec fn view(&self) -> AuthResponseV {
        AuthResponseV {
            api_key: self.api_key@,
            operator_id: self.operator_id@,
            token: self.token@,
        }
    }
}

/// An IMEI lock on a subscriber.
#[derive(Debug, Clone)]
pub struct IMEILock {
    pub imei: String,
}

/// The model of an IMEI lock.
pub struct IMEILockV {
    pub imei: Seq<char>,
}

impl View for IMEILock {
    type V = IMEILockV;

    open spec fn view(&self) -> IMEILockV {
        IMEILockV { imei: self.imei@ }
    }
}

/// The radio cell a session is attached to.
#[derive(Debug, Clone)]
pub struct Cell {
    pub radio_type: String,
    pub mcc: u16,
    pub mnc: u16,
    pub tac: u16,
    pub eci: u16,
}

/// The model of a radio cell.
pub struct CellV {
    pub radio_type: Seq<char>,
    pub mcc: u16,
    pub mnc: u16,
    pub tac: u16,
    pub eci: u16,
}

impl View for Cell {
    type V = CellV;

    open spec fn view(&self) -> CellV {
        CellV {
            radio_type: self.radio_type@,
            mcc: self.mcc,
            mnc: self.mnc,
            tac: self.tac,
            eci: self.eci,
        }
    }
}

/// The live session state of a subscriber.
#[derive(Debug, Clone)]
pub struct SessionStatus {
    pub dns_servers: Option<Vec<String>>,
    pub imei: Option<String>,
    pub last_updated_at: Option<Timestamp>,
    pub location: Option<String>,
    pub cell: Option<Cell>,
    pub online: bool,
    pub ue_ip_address: Option<String>,
}

/// The model of a session status.
pub struct SessionStatusV {
    pub dns_servers: Option<Seq<Seq<char>>>,
    pub imei: Option<Seq<char>>,
    pub last_updated_at: Option<int>,
    pub location: Option<Seq<char>>,
    pub cell: Option<CellV>,
    pub online: bool,
    pub ue_ip_address: Option<Seq<char>>,
}

impl View for SessionStatus {
    type V = SessionStatusV;

    open spec fn view(&self) -> SessionStatusV {
        SessionStatusV {
            dns_servers: match self.dns_servers {
                Some(ref v) => Some(strs_views(v@)),
                None => None,
            },
            imei: match self.imei {
                Some(ref s) => Some(s@),
                None => None,
            },
            last_updated_at: match self.last_updated_at {
                Some(t) => Some(t.millis as int),
                None => None,
            },
            location: match self.location {
                Some(ref s) => Some(s@),
                None => None,
            },
            cell: match self.cell {
                Some(ref c) => Some(c@),
                None => None,
            },
            online: self.online,
            ue_ip_address: match self.ue_ip_address {
                Some(ref s) => Some(s@),
                None => None,
            },
        }
    }
}

/// A provisioned SIM/device record; `imsi` is the stable identity.
#[derive(Debug, Clone)]
pub struct Subscriber {
    pub apn: String,
    pub created_at: Timestamp,
    pub expired_at: Option<Timestamp>,
    pub expiry_action: Option<String>,
    pub group_id: Option<String>,
    pub iccid: Option<String>,
    pub imei_lock: Option<IMEILock>,
    pub imsi: String,
    pub ip_address: Option<String>,
    pub last_modified_at: Option<Timestamp>,
    pub module_type: String,
    pub msisdn: String,
    pub operator_id: String,
    /// Decoded into a wide integer so that growth of the plan range on the
    /// wire cannot truncate the value.
    pub plan: i64,
    pub serial_number: String,
    pub session_status: Option<SessionStatus>,
    pub speed_class: String,
    pub status: String,
    pub tags: Tags,
    pub termination_enabled: bool,
}

/// The model of a subscriber record.
pub struct SubscriberV {
    pub apn: Seq<char>,
    pub created_at: int,
    pub expired_at: Option<int>,
    pub expiry_action: Option<Seq<char>>,
    pub group_id: Option<Seq<char>>,
    pub iccid: Option<Seq<char>>,
    pub imei_lock: Option<IMEILockV>,
    pub imsi: Seq<char>,
    pub ip_address: Option<Seq<char>>,
    pub last_modified_at: Option<int>,
    pub module_type: Seq<char>,
    pub msisdn: Seq<char>,
    pub operator_id: Seq<char>,
    pub plan: int,
    pub serial_number: Seq<char>,
    pub session_status: Option<SessionStatusV>,
    pub speed_class: Seq<char>,
    pub status: Seq<char>,
    pub tags: Seq<(Seq<char>, Seq<char>)>,
    pub termination_enabled: bool,
}

impl View for Subscriber {
    type V = SubscriberV;

    open spec fn view(&self) -> SubscriberV {
        SubscriberV {
            apn: self.apn@,
            created_at: self.created_at.millis as int,
            expired_at: match self.expired_at {
                Some(t) => Some(t.millis as int),
                None => None,
            },
            expiry_action: match self.expiry_action {
                Some(ref s) => Some(s@),
                None => None,
            },
            group_id: match self.group_id {
                Some(ref s) => Some(s@),
                None => None,
            },
            iccid: match self.iccid {
                Some(ref s) => Some(s@),
                None => None,
            },
            imei_lock: match self.imei_lock {
                Some(ref l) => Some(l@),
                None => None,
            },
            imsi: self.imsi@,
            ip_address: match self.ip_address {
                Some(ref s) => Some(s@),
                None => None,
            },
            last_modified_at: match self.last_modified_at {
                Some(t) => Some(t.millis as int),
                None => None,
            },
            module_type: self.module_type@,
            msisdn: self.msisdn@,
            operator_id: self.operator_id@,
            plan: self.plan as int,
            serial_number: self.serial_number@,
            session_status: match self.session_status {
                Some(ref s) => Some(s@),
                None => None,
            },
            speed_class: self.speed_class@,
            status: self.status@,
            tags: pairs_views(self.tags@),
            termination_enabled: self.termination_enabled,
        }
    }
}

/// Payload that activates a subscriber by IMSI.
#[derive(Debug, Clone)]
pub struct SubscriberRegistration {
    pub imsi: String,
    pub registration_secret: String,
}

/// The model of a registration payload.
pub struct SubscriberRegistrationV {
    pub imsi: Seq<char>,
    pub registration_secret: Seq<char>,
}

impl View for SubscriberRegistration {
    type V = SubscriberRegistrationV;

    open spec fn view(&self) -> SubscriberRegistrationV {
        SubscriberRegistrationV {
            imsi: self.imsi@,
            registration_secret: self.registration_secret@,
        }
    }
}

} // verus!
