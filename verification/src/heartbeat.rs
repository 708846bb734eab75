//! Liveness reporting: payload, admission, and response handling.
//!
//! A heartbeat is an HTTPS POST of a system-info payload, allowed only for a
//! registered device: a record without a `device_id` must fail
//! before any network work. The payload build, the registration guard, the
//! payload's wire encoding and the response decoding are verified; the embedding
//! program only moves bytes.

use vstd::prelude::*;
use crate::json::{
    jstring, jopt_string, p_ws, p_lit, p_string, p_key, push_lit, push_jstring, push_jopt_string,
    skip_ws, expect_lit, expect_key, parse_string,
};
use crate::text::{chars_of, string_of};
use crate::settings::{Settings, SettingsError};

verus! {

/// The system-info payload of one heartbeat.
#[derive(Debug)]
pub struct HeartbeatRequest {
    pub hostname: String,
    pub ip_address: Option<String>,
    pub ext_address: Option<String>,
    pub version: String,
    pub mac_address: Option<String>,
    pub guid: Option<String>,
    pub username: Option<String>,
}

/// Mathematical model of a [`HeartbeatRequest`].
#[verifier::ext_equal]
pub struct SpecHeartbeatRequest {
    pub hostname: Seq<char>,
    pub ip_address: Option<Seq<char>>,
    pub ext_address: Option<Seq<char>>,
    pub version: Seq<char>,
    pub mac_address: Option<Seq<char>>,
    pub guid: Option<Seq<char>>,
    pub username: Option<Seq<char>>,
}

impl View for HeartbeatRequest {
    type V = SpecHeartbeatRequest;

    open spec fn view(&self) -> SpecHeartbeatRequest {
        SpecHeartbeatRequest {
            hostname: self.hostname@,
            ip_address: self.ip_address.deep_view(),
            ext_address: self.ext_address.deep_view(),
            version: self.version@,
            mac_address: self.mac_address.deep_view(),
            guid: self.guid.deep_view(),
            username: self.username.deep_view(),
        }
    }
}

/// A successful heartbeat's response body.
#[derive(Debug)]
pub struct HeartbeatResponse {
    pub data: HeartbeatData,
}

/// The payload of a heartbeat response: the device's canonical guid.
#[derive(Debug)]
pub struct HeartbeatData {
    pub guid: String,
}

/// How a heartbeat fails. `NotRegistered` comes before any network
/// work; `Remote` carries the non-success status and the response body
/// text; `Decode` a success response whose body was no heartbeat
/// response; `Settings` a record that could not be loaded.
#[derive(Debug)]
pub enum HeartbeatError {
    NotRegistered,
    Settings(SettingsError),
    Decode,
    Remote { status: u16, body: String },
}

// ---------------------------------------------------------------------
// Payload build and guard
// ---------------------------------------------------------------------

/// What the payload holds: the record's hostname when present, else the
/// OS-queried one; the record's guid; and the caller-resolved network
/// and user identifiers as they are.
pub open spec fn spec_gather(
    v: crate::settings::SpecSettings,
    os_hostname: Seq<char>,
    mac: Option<Seq<char>>,
    local_ip: Option<Seq<char>>,
    ext_ip: Option<Seq<char>>,
    username: Option<Seq<char>>,
    version: Seq<char>,
) -> SpecHeartbeatRequest {
    SpecHeartbeatRequest {
        hostname: match v.hostname {
            Option::Some(h) => h,
            Option::None => os_hostname,
        },
        ip_address: local_ip,
        ext_address: ext_ip,
        version: version,
        mac_address: mac,
        guid: v.guid,
        username: username,
    }
}

/// Builds the heartbeat payload from the loaded record and the
/// caller-resolved best-effort identifiers; a missing identifier leaves
/// its field absent, it never fails the call.
pub fn gather_system_info(
    settings: &Settings,
    os_hostname: String,
    mac: Option<String>,
    local_ip: Option<String>,
    ext_ip: Option<String>,
    username: Option<String>,
    version: &str,
) -> (r: HeartbeatRequest)
    ensures
        r@ == spec_gather(
            settings@,
            os_hostname@,
            mac.deep_view(),
            local_ip.deep_view(),
            ext_ip.deep_view(),
            username.deep_view(),
            version@,
        ),
{
    let hostname = match &settings.hostname {
        Option::Some(h) => h.clone(),
        Option::None => os_hostname,
    };
    let guid = match &settings.guid {
        Option::Some(g) => Some(g.clone()),
        Option::None => None,
    };
    HeartbeatRequest {
        hostname,
        ip_address: local_ip,
        ext_address: ext_ip,
        version: version.to_owned(),
        mac_address: mac,
        guid,
        username,
    }
}

/// The heartbeat guard: a record without a `device_id` fails with
/// `NotRegistered` — and the embedding program makes no network call
/// without the identifying headers this returns. Succeeds if and only
/// if `device_id` is present, yielding the `x-device-id` and
/// `x-site-id` header values.
pub fn prepare_heartbeat(settings: &Settings) -> (r: Result<(String, String), HeartbeatError>)
    ensures
        r is Ok <==> settings@.device_id is Some,
        r is Ok ==> r.unwrap().0@ == settings@.device_id.unwrap() && r.unwrap().1@
            == settings@.site_id,
        r is Err ==> r.unwrap_err() is NotRegistered,
{
    match &settings.device_id {
        Option::Some(d) => Ok((d.clone(), settings.site_id.clone())),
        Option::None => Err(HeartbeatError::NotRegistered),
    }
}

// ---------------------------------------------------------------------
// Wire format
// ---------------------------------------------------------------------

/// The exact text the encoder writes for a heartbeat payload.
pub open spec fn json_of_heartbeat_request(v: SpecHeartbeatRequest) -> Seq<char> {
    "{\"hostname\":"@ + jstring(v.hostname) + ",\"ip_address\":"@ + jopt_string(v.ip_address)
        + ",\"ext_address\":"@ + jopt_string(v.ext_address) + ",\"version\":"@ + jstring(v.version)
        + ",\"mac_address\":"@ + jopt_string(v.mac_address) + ",\"guid\":"@ + jopt_string(v.guid)
        + ",\"username\":"@ + jopt_string(v.username) + "}"@
}

/// Serializes a heartbeat payload for the wire.
pub fn heartbeat_request_to_json(r: &HeartbeatRequest) -> (out: String)
    ensures
        out@ == json_of_heartbeat_request(r@),
{
    let mut v: Vec<char> = Vec::new();
    push_lit(&mut v, "{\"hostname\":");
    push_jstring(&mut v, r.hostname.as_str());
    push_lit(&mut v, ",\"ip_address\":");
    push_jopt_string(&mut v, &r.ip_address);
    push_lit(&mut v, ",\"ext_address\":");
    push_jopt_string(&mut v, &r.ext_address);
    push_lit(&mut v, ",\"version\":");
    push_jstring(&mut v, r.version.as_str());
    push_lit(&mut v, ",\"mac_address\":");
    push_jopt_string(&mut v, &r.mac_address);
    push_lit(&mut v, ",\"guid\":");
    push_jopt_string(&mut v, &r.guid);
    push_lit(&mut v, ",\"username\":");
    push_jopt_string(&mut v, &r.username);
    push_lit(&mut v, "}");
    proof {
        assert(v@ =~= json_of_heartbeat_request(r@));
    }
    string_of(&v)
}

/// The grammar of a heartbeat response: `{"data":{"guid":<string>}}`
/// with optional whitespace between tokens, the whole text consumed.
/// Yields the guid.
pub open spec fn p_heartbeat_response(s: Seq<char>) -> Option<Seq<char>> {
    match p_lit(s, p_ws(s, 0), "{"@) {
        Option::None => None,
        Option::Some(i) => match p_key(s, i, "\"data\""@) {
            Option::None => None,
            Option::Some(i) => match p_lit(s, i, "{"@) {
                Option::None => None,
                Option::Some(i) => match p_key(s, i, "\"guid\""@) {
                    Option::None => None,
                    Option::Some(i) => match p_string(s, i) {
                        Option::None => None,
                        Option::Some((guid, i)) => match p_lit(s, p_ws(s, i), "}"@) {
                            Option::None => None,
                            Option::Some(i) => match p_lit(s, p_ws(s, i), "}"@) {
                                Option::None => None,
                                Option::Some(i) => if p_ws(s, i) == s.len() {
                                    Some(guid)
                                } else {
                                    None
                                },
                            },
                        },
                    },
                },
            },
        },
    }
}

/// Decodes a heartbeat response body, exactly as
/// [`p_heartbeat_response`] says.
pub fn parse_heartbeat_response(text: &str) -> (r: Result<HeartbeatResponse, HeartbeatError>)
    ensures
        r is Ok <==> p_heartbeat_response(text@) is Some,
        r is Ok ==> r.unwrap().data.guid@ == p_heartbeat_response(text@).unwrap(),
        r is Err ==> r.unwrap_err() is Decode,
{
    let v = chars_of(text);
    let i = skip_ws(&v, 0);
    let i = match expect_lit(&v, i, "{") {
        Option::Some(i) => i,
        Option::None => {
            return Err(HeartbeatError::Decode);
        },
    };
    let i = match expect_key(&v, i, "\"data\"") {
        Option::Some(i) => i,
        Option::None => {
            return Err(HeartbeatError::Decode);
        },
    };
    let i = match expect_lit(&v, i, "{") {
        Option::Some(i) => i,
        Option::None => {
            return Err(HeartbeatError::Decode);
        },
    };
    let i = match expect_key(&v, i, "\"guid\"") {
        Option::Some(i) => i,
        Option::None => {
            return Err(HeartbeatError::Decode);
        },
    };
    let (guid, i) = match parse_string(&v, i) {
        Option::Some(x) => x,
        Option::None => {
            return Err(HeartbeatError::Decode);
        },
    };
    let i = skip_ws(&v, i);
    let i = match expect_lit(&v, i, "}") {
        Option::Some(i) => i,
        Option::None => {
            return Err(HeartbeatError::Decode);
        },
    };
    let i = skip_ws(&v, i);
    let i = match expect_lit(&v, i, "}") {
        Option::Some(i) => i,
        Option::None => {
            return Err(HeartbeatError::Decode);
        },
    };
    let i = skip_ws(&v, i);
    if i != v.len() {
        return Err(HeartbeatError::Decode);
    }
    Ok(HeartbeatResponse { data: HeartbeatData { guid } })
}

/// Whether an HTTP status counts as success.
pub open spec fn spec_is_success_status(status: u16) -> bool {
    200 <= status < 300
}

/// Turns the transport's outcome into the heartbeat's result: a success
/// status has its body decoded; a non-success status fails with the
/// status and the body text, exactly and only then.
pub fn process_heartbeat_response(status: u16, body: String) -> (r: Result<
    HeartbeatResponse,
    HeartbeatError,
>)
    ensures
        spec_is_success_status(status) ==> (r is Ok <==> p_heartbeat_response(body@) is Some),
        spec_is_success_status(status) && r is Ok ==> r.unwrap().data.guid@
            == p_heartbeat_response(body@).unwrap(),
        spec_is_success_status(status) && r is Err ==> r.unwrap_err() is Decode,
        !spec_is_success_status(status) ==> (r matches Err(HeartbeatError::Remote {
            status: st,
            body: b,
        }) && st == status && b@ == body@),
{
    if 200 <= status && status < 300 {
        parse_heartbeat_response(body.as_str())
    } else {
        Err(HeartbeatError::Remote { status, body })
    }
}

} // verus!
