//! The one-time registration handshake.
//!
//! Registration sends the device's best-effort identity to the remote
//! service and, on success, applies the server-assigned `device_id` and
//! canonical `guid` to the settings record — together with
//! `registered_at`, all at once or not at all. A failed attempt leaves
//! the persisted state untouched; whoever calls again (normally the next
//! process start) retries. The payload build, its wire encoding, the
//! response decoding and the state transition are verified; the
//! embedding program performs the POST.

use vstd::prelude::*;
use crate::json::{
    jstring, jopt_string, p_ws, p_lit, p_string, p_key, p_comma, push_lit, push_jstring,
    push_jopt_string, skip_ws, expect_lit, expect_key, expect_comma, parse_string,
};
use crate::text::{chars_of, string_of};
use crate::settings::{
    Settings, SettingsError, SpecSettings, spec_apply_registration, apply_registration_at,
};
use crate::Platform;

verus! {

/// The registration payload: the device's prior fingerprint (if any),
/// its tenant scope, and every best-effort identifier; an unresolved
/// identifier is carried as null, never omitted.
#[derive(Debug)]
pub struct RegistrationRequest {
    pub guid: Option<String>,
    pub site_id: String,
    pub hostname: String,
    pub version: String,
    pub platform: String,
    pub serial: Option<String>,
    pub mac: Option<String>,
    pub ip_address: Option<String>,
    pub ext_address: Option<String>,
    pub username: Option<String>,
}

/// Mathematical model of a [`RegistrationRequest`].
#[verifier::ext_equal]
pub struct SpecRegistrationRequest {
    pub guid: Option<Seq<char>>,
    pub site_id: Seq<char>,
    pub hostname: Seq<char>,
    pub version: Seq<char>,
    pub platform: Seq<char>,
    pub serial: Option<Seq<char>>,
    pub mac: Option<Seq<char>>,
    pub ip_address: Option<Seq<char>>,
    pub ext_address: Option<Seq<char>>,
    pub username: Option<Seq<char>>,
}

impl View for RegistrationRequest {
    type V = SpecRegistrationRequest;

    open spec fn view(&self) -> SpecRegistrationRequest {
        SpecRegistrationRequest {
            guid: self.guid.deep_view(),
            site_id: self.site_id@,
            hostname: self.hostname@,
            version: self.version@,
            platform: self.platform@,
            serial: self.serial.deep_view(),
            mac: self.mac.deep_view(),
            ip_address: self.ip_address.deep_view(),
            ext_address: self.ext_address.deep_view(),
            username: self.username.deep_view(),
        }
    }
}

/// A successful registration's response body.
#[derive(Debug)]
pub struct RegistrationResponse {
    pub data: RegistrationData,
}

/// The server-assigned identity.
#[derive(Debug)]
pub struct RegistrationData {
    pub device_id: String,
    pub guid: String,
}

/// How a registration attempt fails; every variant is recoverable by
/// retrying the whole attempt later, and none leaves partial state.
/// `Remote` carries the non-success status and the response body text;
/// `Decode` a success response whose body was no registration response.
#[derive(Debug)]
pub enum RegistrationError {
    Settings(SettingsError),
    Decode,
    Remote { status: u16, body: String },
}

// ---------------------------------------------------------------------
// Payload build
// ---------------------------------------------------------------------

/// What the payload holds: the completed record's fingerprint and
/// tenant scope, its hostname (or the `unknown` placeholder), the
/// agent's version and platform, and the caller-resolved best-effort
/// identifiers as they are.
pub open spec fn spec_build_request(
    v: SpecSettings,
    serial: Option<Seq<char>>,
    mac: Option<Seq<char>>,
    local_ip: Option<Seq<char>>,
    ext_ip: Option<Seq<char>>,
    username: Option<Seq<char>>,
    version: Seq<char>,
    platform: Seq<char>,
) -> SpecRegistrationRequest {
    SpecRegistrationRequest {
        guid: v.guid,
        site_id: v.site_id,
        hostname: match v.hostname {
            Option::Some(h) => h,
            Option::None => "unknown"@,
        },
        version: version,
        platform: platform,
        serial: serial,
        mac: mac,
        ip_address: local_ip,
        ext_address: ext_ip,
        username: username,
    }
}

/// Builds the registration payload from the completed record and the
/// caller-resolved identifiers. Every probe is best-effort: a missing
/// identifier leaves its field absent, it never fails the build.
pub fn build_registration_request(
    settings: &Settings,
    serial: Option<String>,
    mac: Option<String>,
    local_ip: Option<String>,
    ext_ip: Option<String>,
    username: Option<String>,
    version: &str,
    platform: Platform,
) -> (r: RegistrationRequest)
    ensures
        r@ == spec_build_request(
            settings@,
            serial.deep_view(),
            mac.deep_view(),
            local_ip.deep_view(),
            ext_ip.deep_view(),
            username.deep_view(),
            version@,
            crate::spec_platform_str(platform),
        ),
{
    let guid = match &settings.guid {
        Option::Some(g) => Some(g.clone()),
        Option::None => None,
    };
    let hostname = match &settings.hostname {
        Option::Some(h) => h.clone(),
        Option::None => "unknown".to_owned(),
    };
    RegistrationRequest {
        guid,
        site_id: settings.site_id.clone(),
        hostname,
        version: version.to_owned(),
        platform: platform.as_str().to_owned(),
        serial,
        mac,
        ip_address: local_ip,
        ext_address: ext_ip,
        username,
    }
}

// ---------------------------------------------------------------------
// Wire format
// ---------------------------------------------------------------------

/// The exact text the encoder writes for a registration payload; an
/// absent identifier is written as `null`, so every field is always
/// present on the wire.
pub open spec fn json_of_registration_request(v: SpecRegistrationRequest) -> Seq<char> {
    "{\"guid\":"@ + jopt_string(v.guid) + ",\"site_id\":"@ + jstring(v.site_id)
        + ",\"hostname\":"@ + jstring(v.hostname) + ",\"version\":"@ + jstring(v.version)
        + ",\"platform\":"@ + jstring(v.platform) + ",\"serial\":"@ + jopt_string(v.serial)
        + ",\"mac\":"@ + jopt_string(v.mac) + ",\"ip_address\":"@ + jopt_string(v.ip_address)
        + ",\"ext_address\":"@ + jopt_string(v.ext_address) + ",\"username\":"@ + jopt_string(
        v.username,
    ) + "}"@
}

/// Serializes a registration payload for the wire.
pub fn registration_request_to_json(r: &RegistrationRequest) -> (out: String)
    ensures
        out@ == json_of_registration_request(r@),
{
    let mut v: Vec<char> = Vec::new();
    push_lit(&mut v, "{\"guid\":");
    push_jopt_string(&mut v, &r.guid);
    push_lit(&mut v, ",\"site_id\":");
    push_jstring(&mut v, r.site_id.as_str());
    push_lit(&mut v, ",\"hostname\":");
    push_jstring(&mut v, r.hostname.as_str());
    push_lit(&mut v, ",\"version\":");
    push_jstring(&mut v, r.version.as_str());
    push_lit(&mut v, ",\"platform\":");
    push_jstring(&mut v, r.platform.as_str());
    push_lit(&mut v, ",\"serial\":");
    push_jopt_string(&mut v, &r.serial);
    push_lit(&mut v, ",\"mac\":");
    push_jopt_string(&mut v, &r.mac);
    push_lit(&mut v, ",\"ip_address\":");
    push_jopt_string(&mut v, &r.ip_address);
    push_lit(&mut v, ",\"ext_address\":");
    push_jopt_string(&mut v, &r.ext_address);
    push_lit(&mut v, ",\"username\":");
    push_jopt_string(&mut v, &r.username);
    push_lit(&mut v, "}");
    proof {
        assert(v@ =~= json_of_registration_request(r@));
    }
    string_of(&v)
}

/// The grammar of a registration response:
/// `{"data":{"device_id":<string>,"guid":<string>}}` with optional
/// whitespace between tokens, the whole text consumed. Yields the
/// assigned device id and guid.
pub open spec fn p_registration_response(s: Seq<char>) -> Option<(Seq<char>, Seq<char>)> {
    match p_lit(s, p_ws(s, 0), "{"@) {
        Option::None => None,
        Option::Some(i) => match p_key(s, i, "\"data\""@) {
            Option::None => None,
            Option::Some(i) => match p_lit(s, i, "{"@) {
                Option::None => None,
                Option::Some(i) => match p_key(s, i, "\"device_id\""@) {
                    Option::None => None,
                    Option::Some(i) => match p_string(s, i) {
                        Option::None => None,
                        Option::Some((device_id, i)) => match p_comma(s, i) {
                            Option::None => None,
                            Option::Some(i) => match p_key(s, i, "\"guid\""@) {
                                Option::None => None,
                                Option::Some(i) => match p_string(s, i) {
                                    Option::None => None,
                                    Option::Some((guid, i)) => match p_lit(s, p_ws(s, i), "}"@) {
                                        Option::None => None,
                                        Option::Some(i) => match p_lit(s, p_ws(s, i), "}"@) {
                                            Option::None => None,
                                            Option::Some(i) => if p_ws(s, i) == s.len() {
                                                Some((device_id, guid))
                                            } else {
                                                None
                                            },
                                        },
                                    },
                                },
                            },
                        },
                    },
                },
            },
        },
    }
}

/// Decodes a registration response body, exactly as
/// [`p_registration_response`] says.
pub fn parse_registration_response(text: &str) -> (r: Result<
    RegistrationResponse,
    RegistrationError,
>)
    ensures
        r is Ok <==> p_registration_response(text@) is Some,
        r is Ok ==> r.unwrap().data.device_id@ == p_registration_response(text@).unwrap().0
            && r.unwrap().data.guid@ == p_registration_response(text@).unwrap().1,
        r is Err ==> r.unwrap_err() is Decode,
{
    let v = chars_of(text);
    let i = skip_ws(&v, 0);
    let i = match expect_lit(&v, i, "{") {
        Option::Some(i) => i,
        Option::None => {
            return Err(RegistrationError::Decode);
        },
    };
    let i = match expect_key(&v, i, "\"data\"") {
        Option::Some(i) => i,
        Option::None => {
            return Err(RegistrationError::Decode);
        },
    };
    let i = match expect_lit(&v, i, "{") {
        Option::Some(i) => i,
        Option::None => {
            return Err(RegistrationError::Decode);
        },
    };
    let i = match expect_key(&v, i, "\"device_id\"") {
        Option::Some(i) => i,
        Option::None => {
            return Err(RegistrationError::Decode);
        },
    };
    let (device_id, i) = match parse_string(&v, i) {
        Option::Some(x) => x,
        Option::None => {
            return Err(RegistrationError::Decode);
        },
    };
    let i = match expect_comma(&v, i) {
        Option::Some(i) => i,
        Option::None => {
            return Err(RegistrationError::Decode);
        },
    };
    let i = match expect_key(&v, i, "\"guid\"") {
        Option::Some(i) => i,
        Option::None => {
            return Err(RegistrationError::Decode);
        },
    };
    let (guid, i) = match parse_string(&v, i) {
        Option::Some(x) => x,
        Option::None => {
            return Err(RegistrationError::Decode);
        },
    };
    let i = skip_ws(&v, i);
    let i = match expect_lit(&v, i, "}") {
        Option::Some(i) => i,
        Option::None => {
            return Err(RegistrationError::Decode);
        },
    };
    let i = skip_ws(&v, i);
    let i = match expect_lit(&v, i, "}") {
        Option::Some(i) => i,
        Option::None => {
            return Err(RegistrationError::Decode);
        },
    };
    let i = skip_ws(&v, i);
    if i != v.len() {
        return Err(RegistrationError::Decode);
    }
    Ok(RegistrationResponse { data: RegistrationData { device_id, guid } })
}

/// Turns the transport's outcome into the attempt's result and, on
/// success, applies the assigned identity to the record — `device_id`,
/// `guid` and `registered_at` together. On any failure the record is
/// untouched: a non-success status fails with the status and body text,
/// a success status whose body does not decode fails with `Decode`.
pub fn process_registration_response(
    settings: &mut Settings,
    status: u16,
    body: String,
    now: String,
) -> (r: Result<RegistrationResponse, RegistrationError>)
    ensures
        crate::heartbeat::spec_is_success_status(status) ==> (r is Ok <==> p_registration_response(
            body@,
        ) is Some),
        r is Ok ==> {
            let (device_id, guid) = p_registration_response(body@).unwrap();
            &&& r.unwrap().data.device_id@ == device_id
            &&& r.unwrap().data.guid@ == guid
            &&& final(settings)@ == spec_apply_registration(old(settings)@, device_id, guid, now@)
        },
        r is Err ==> final(settings)@ == old(settings)@,
        !crate::heartbeat::spec_is_success_status(status) ==> (r matches Err(
            RegistrationError::Remote { status: st, body: b },
        ) && st == status && b@ == body@),
        crate::heartbeat::spec_is_success_status(status) && r is Err ==> r.unwrap_err() is Decode,
{
    if 200 <= status && status < 300 {
        match parse_registration_response(body.as_str()) {
            Result::Ok(resp) => {
                apply_registration_at(
                    settings,
                    resp.data.device_id.clone(),
                    resp.data.guid.clone(),
                    now,
                );
                Ok(resp)
            },
            Result::Err(e) => Err(e),
        }
    } else {
        Err(RegistrationError::Remote { status, body })
    }
}

} // verus!
