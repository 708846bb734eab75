//! The persisted configuration record and its transitions.
//!
//! `Settings` is the single source of truth for the installed device:
//! tenant scope, server-assigned identity, and install/registration
//! timestamps. This module fixes the file format, the lazy completion
//! of locally resolvable fields, and the one-time transition that a
//! successful registration applies. Reading and writing the file itself
//! is the embedding program's job; it hands the file's text in and
//! takes the new text out.
//!
//! The file format is exactly the canonical form the encoder writes:
//! one JSON object with the record's eight keys, in declaration order,
//! each always present — an absent optional field is written as `null`
//! — with whitespace tolerated between tokens. The installer that
//! creates the file must emit this shape; a file in any other shape
//! (keys reordered, optional keys omitted, unknown keys added) is
//! rejected as `Parse`, which the loading layer treats as a record in
//! need of repair or reinstallation.

use vstd::prelude::*;
use vstd::string::StringExecFns;
use crate::json::{
    jstring, jopt_string, jopt_bool, p_ws, p_lit, p_string, p_opt_string, p_opt_bool, p_key,
    p_comma, push_lit, push_jstring, push_jopt_string, push_jopt_bool, skip_ws, expect_lit,
    expect_key, expect_comma, parse_string, parse_opt_string, parse_opt_bool, lemma_p_ws_at,
    lemma_p_lit_at, lemma_p_key_at, lemma_p_comma_at, lemma_p_string_at, lemma_p_opt_string_at,
};
use crate::text::{chars_of, string_of};
use crate::Platform;

verus! {

/// The persisted configuration record, one per installed device.
///
/// `site_id` and `api_host` are set at install time and never mutated
/// here. `registered_at` is set at most once, by
/// [`update_from_registration`], and once set, `device_id` and `guid`
/// are set too.
#[derive(Debug)]
pub struct Settings {
    pub site_id: String,
    pub device_id: Option<String>,
    pub guid: Option<String>,
    pub api_host: String,
    pub hostname: Option<String>,
    pub installed_at: String,
    pub registered_at: Option<String>,
    pub show_tray: Option<bool>,
}

/// Mathematical model of a [`Settings`] record.
#[verifier::ext_equal]
pub struct SpecSettings {
    pub site_id: Seq<char>,
    pub device_id: Option<Seq<char>>,
    pub guid: Option<Seq<char>>,
    pub api_host: Seq<char>,
    pub hostname: Option<Seq<char>>,
    pub installed_at: Seq<char>,
    pub registered_at: Option<Seq<char>>,
    pub show_tray: Option<bool>,
}

impl View for Settings {
    type V = SpecSettings;

    open spec fn view(&self) -> SpecSettings {
        SpecSettings {
            site_id: self.site_id@,
            device_id: self.device_id.deep_view(),
            guid: self.guid.deep_view(),
            api_host: self.api_host@,
            hostname: self.hostname.deep_view(),
            installed_at: self.installed_at@,
            registered_at: self.registered_at.deep_view(),
            show_tray: self.show_tray,
        }
    }
}

impl Clone for Settings {
    fn clone(&self) -> (r: Self)
        ensures
            r@ == self@,
    {
        Settings {
            site_id: self.site_id.clone(),
            device_id: match &self.device_id {
                Option::Some(s) => Some(s.clone()),
                Option::None => None,
            },
            guid: match &self.guid {
                Option::Some(s) => Some(s.clone()),
                Option::None => None,
            },
            api_host: self.api_host.clone(),
            hostname: match &self.hostname {
                Option::Some(s) => Some(s.clone()),
                Option::None => None,
            },
            installed_at: self.installed_at.clone(),
            registered_at: match &self.registered_at {
                Option::Some(s) => Some(s.clone()),
                Option::None => None,
            },
            show_tray: self.show_tray,
        }
    }
}

/// How an operation on the settings record fails.
///
/// `NotFound` is the expected pre-install state (file absent), `Parse`
/// means the file is present but no valid record, `Io` a disk or
/// permission failure, and `Identity` that a field needed completion but
/// no identity source could supply it.
#[derive(Clone, Copy, PartialEq, Eq, Structural, Debug)]
pub enum SettingsError {
    NotFound,
    Parse,
    Io,
    Identity,
}

// ---------------------------------------------------------------------
// Paths
// ---------------------------------------------------------------------

/// The configuration directory for a platform family.
pub open spec fn spec_config_dir(p: Platform) -> Seq<char> {
    match p {
        Platform::Windows => "C:\\ProgramData\\MSPAgent"@,
        Platform::MacOs => "/Library/Application Support/MSPAgent"@,
        Platform::Linux => "/etc/mspagent"@,
    }
}

/// The platform's path separator.
pub open spec fn spec_path_sep(p: Platform) -> Seq<char> {
    match p {
        Platform::Windows => "\\"@,
        _ => "/"@,
    }
}

/// OS-conventional privileged configuration directory of the agent.
pub fn get_config_dir(p: Platform) -> (r: String)
    ensures
        r@ == spec_config_dir(p),
{
    match p {
        Platform::Windows => "C:\\ProgramData\\MSPAgent".to_owned(),
        Platform::MacOs => "/Library/Application Support/MSPAgent".to_owned(),
        Platform::Linux => "/etc/mspagent".to_owned(),
    }
}

/// Full path of the persisted settings file.
pub fn get_settings_path(p: Platform) -> (r: String)
    ensures
        r@ == spec_config_dir(p) + spec_path_sep(p) + "settings.json"@,
{
    let mut s = get_config_dir(p);
    match p {
        Platform::Windows => s.append("\\"),
        _ => s.append("/"),
    }
    s.append("settings.json");
    s
}

/// Base URL of the remote service joined with a request path.
pub fn get_api_endpoint(settings: &Settings, path: &str) -> (r: String)
    ensures
        r@ == settings@.api_host + path@,
{
    let mut s = settings.api_host.clone();
    s.append(path);
    s
}

// ---------------------------------------------------------------------
// File format
// ---------------------------------------------------------------------

/// The exact text the encoder writes for a record: one JSON object with
/// the record's fields, in declaration order, without whitespace.
pub open spec fn json_of_settings(v: SpecSettings) -> Seq<char> {
    "{\"site_id\":"@ + jstring(v.site_id) + ",\"device_id\":"@ + jopt_string(v.device_id)
        + ",\"guid\":"@ + jopt_string(v.guid) + ",\"api_host\":"@ + jstring(v.api_host)
        + ",\"hostname\":"@ + jopt_string(v.hostname) + ",\"installed_at\":"@ + jstring(
        v.installed_at,
    ) + ",\"registered_at\":"@ + jopt_string(v.registered_at) + ",\"show_tray\":"@ + jopt_bool(
        v.show_tray,
    ) + "}"@
}

/// Serializes a record to the settings file's text.
pub fn settings_to_json(s: &Settings) -> (r: String)
    ensures
        r@ == json_of_settings(s@),
{
    let mut out: Vec<char> = Vec::new();
    push_lit(&mut out, "{\"site_id\":");
    push_jstring(&mut out, s.site_id.as_str());
    push_lit(&mut out, ",\"device_id\":");
    push_jopt_string(&mut out, &s.device_id);
    push_lit(&mut out, ",\"guid\":");
    push_jopt_string(&mut out, &s.guid);
    push_lit(&mut out, ",\"api_host\":");
    push_jstring(&mut out, s.api_host.as_str());
    push_lit(&mut out, ",\"hostname\":");
    push_jopt_string(&mut out, &s.hostname);
    push_lit(&mut out, ",\"installed_at\":");
    push_jstring(&mut out, s.installed_at.as_str());
    push_lit(&mut out, ",\"registered_at\":");
    push_jopt_string(&mut out, &s.registered_at);
    push_lit(&mut out, ",\"show_tray\":");
    push_jopt_bool(&mut out, &s.show_tray);
    push_lit(&mut out, "}");
    proof {
        assert(out@ =~= json_of_settings(s@));
    }
    string_of(&out)
}

/// The grammar of the settings file: the encoder's output with optional
/// whitespace between tokens, the whole text consumed.
pub open spec fn p_settings(s: Seq<char>) -> Option<SpecSettings> {
    match p_lit(s, p_ws(s, 0), "{"@) {
        Option::None => None,
        Option::Some(i) => match p_key(s, i, "\"site_id\""@) {
            Option::None => None,
            Option::Some(i) => match p_string(s, i) {
                Option::None => None,
                Option::Some((site_id, i)) => match p_comma(s, i) {
                    Option::None => None,
                    Option::Some(i) => match p_key(s, i, "\"device_id\""@) {
                        Option::None => None,
                        Option::Some(i) => match p_opt_string(s, i) {
                            Option::None => None,
                            Option::Some((device_id, i)) => match p_comma(s, i) {
                                Option::None => None,
                                Option::Some(i) => match p_key(s, i, "\"guid\""@) {
                                    Option::None => None,
                                    Option::Some(i) => match p_opt_string(s, i) {
                                        Option::None => None,
                                        Option::Some((guid, i)) => p_settings_tail(
                                            s,
                                            i,
                                            site_id,
                                            device_id,
                                            guid,
                                        ),
                                    },
                                },
                            },
                        },
                    },
                },
            },
        },
    }
}

/// Continues [`p_settings`] after the `guid` field.
pub open spec fn p_settings_tail(
    s: Seq<char>,
    i0: nat,
    site_id: Seq<char>,
    device_id: Option<Seq<char>>,
    guid: Option<Seq<char>>,
) -> Option<SpecSettings> {
    match p_comma(s, i0) {
        Option::None => None,
        Option::Some(i) => match p_key(s, i, "\"api_host\""@) {
            Option::None => None,
            Option::Some(i) => match p_string(s, i) {
                Option::None => None,
                Option::Some((api_host, i)) => match p_comma(s, i) {
                    Option::None => None,
                    Option::Some(i) => match p_key(s, i, "\"hostname\""@) {
                        Option::None => None,
                        Option::Some(i) => match p_opt_string(s, i) {
                            Option::None => None,
                            Option::Some((hostname, i)) => match p_comma(s, i) {
                                Option::None => None,
                                Option::Some(i) => match p_key(s, i, "\"installed_at\""@) {
                                    Option::None => None,
                                    Option::Some(i) => match p_string(s, i) {
                                        Option::None => None,
                                        Option::Some((installed_at, i)) => p_settings_tail2(
                                            s,
                                            i,
                                            SpecSettings {
                                                site_id,
                                                device_id,
                                                guid,
                                                api_host,
                                                hostname,
                                                installed_at,
                                                registered_at: None,
                                                show_tray: None,
                                            },
                                        ),
                                    },
                                },
                            },
                        },
                    },
                },
            },
        },
    }
}

/// Continues [`p_settings`] after the `installed_at` field.
pub open spec fn p_settings_tail2(s: Seq<char>, i0: nat, partial: SpecSettings) -> Option<
    SpecSettings,
> {
    match p_comma(s, i0) {
        Option::None => None,
        Option::Some(i) => match p_key(s, i, "\"registered_at\""@) {
            Option::None => None,
            Option::Some(i) => match p_opt_string(s, i) {
                Option::None => None,
                Option::Some((registered_at, i)) => match p_comma(s, i) {
                    Option::None => None,
                    Option::Some(i) => match p_key(s, i, "\"show_tray\""@) {
                        Option::None => None,
                        Option::Some(i) => match p_opt_bool(s, i) {
                            Option::None => None,
                            Option::Some((show_tray, i)) => match p_lit(s, p_ws(s, i), "}"@) {
                                Option::None => None,
                                Option::Some(i) => if p_ws(s, i) == s.len() {
                                    Some(
                                        SpecSettings {
                                            registered_at,
                                            show_tray,
                                            ..partial
                                        },
                                    )
                                } else {
                                    None
                                },
                            },
                        },
                    },
                },
            },
        },
    }
}

/// Decodes the settings file's text, exactly as [`p_settings`] says;
/// any deviation from the canonical form — keys reordered, optional
/// keys omitted, unknown keys, trailing text — is a `Parse` failure.
#[verifier::rlimit(100)]
#[verifier::spinoff_prover]
pub fn parse_settings(text: &str) -> (r: Result<Settings, SettingsError>)
    ensures
        r is Ok <==> p_settings(text@) is Some,
        r is Ok ==> r.unwrap()@ == p_settings(text@).unwrap(),
        r is Err ==> r.unwrap_err() == SettingsError::Parse,
{
    let v = chars_of(text);
    let i = skip_ws(&v, 0);
    let i = match expect_lit(&v, i, "{") {
        Option::Some(i) => i,
        Option::None => {
            return Err(SettingsError::Parse);
        },
    };
    let i = match expect_key(&v, i, "\"site_id\"") {
        Option::Some(i) => i,
        Option::None => {
            return Err(SettingsError::Parse);
        },
    };
    let (site_id, i) = match parse_string(&v, i) {
        Option::Some(x) => x,
        Option::None => {
            return Err(SettingsError::Parse);
        },
    };
    let i = match expect_comma(&v, i) {
        Option::Some(i) => i,
        Option::None => {
            return Err(SettingsError::Parse);
        },
    };
    let i = match expect_key(&v, i, "\"device_id\"") {
        Option::Some(i) => i,
        Option::None => {
            return Err(SettingsError::Parse);
        },
    };
    let (device_id, i) = match parse_opt_string(&v, i) {
        Option::Some(x) => x,
        Option::None => {
            return Err(SettingsError::Parse);
        },
    };
    let i = match expect_comma(&v, i) {
        Option::Some(i) => i,
        Option::None => {
            return Err(SettingsError::Parse);
        },
    };
    let i = match expect_key(&v, i, "\"guid\"") {
        Option::Some(i) => i,
        Option::None => {
            return Err(SettingsError::Parse);
        },
    };
    let (guid, i) = match parse_opt_string(&v, i) {
        Option::Some(x) => x,
        Option::None => {
            return Err(SettingsError::Parse);
        },
    };
    let i = match expect_comma(&v, i) {
        Option::Some(i) => i,
        Option::None => {
            return Err(SettingsError::Parse);
        },
    };
    let i = match expect_key(&v, i, "\"api_host\"") {
        Option::Some(i) => i,
        Option::None => {
            return Err(SettingsError::Parse);
        },
    };
    let (api_host, i) = match parse_string(&v, i) {
        Option::Some(x) => x,
        Option::None => {
            return Err(SettingsError::Parse);
        },
    };
    let i = match expect_comma(&v, i) {
        Option::Some(i) => i,
        Option::None => {
            return Err(SettingsError::Parse);
        },
    };
    let i = match expect_key(&v, i, "\"hostname\"") {
        Option::Some(i) => i,
        Option::None => {
            return Err(SettingsError::Parse);
        },
    };
    let (hostname, i) = match parse_opt_string(&v, i) {
        Option::Some(x) => x,
        Option::None => {
            return Err(SettingsError::Parse);
        },
    };
    let i = match expect_comma(&v, i) {
        Option::Some(i) => i,
        Option::None => {
            return Err(SettingsError::Parse);
        },
    };
    let i = match expect_key(&v, i, "\"installed_at\"") {
        Option::Some(i) => i,
        Option::None => {
            return Err(SettingsError::Parse);
        },
    };
    let (installed_at, i) = match parse_string(&v, i) {
        Option::Some(x) => x,
        Option::None => {
            return Err(SettingsError::Parse);
        },
    };
    let i = match expect_comma(&v, i) {
        Option::Some(i) => i,
        Option::None => {
            return Err(SettingsError::Parse);
        },
    };
    let i = match expect_key(&v, i, "\"registered_at\"") {
        Option::Some(i) => i,
        Option::None => {
            return Err(SettingsError::Parse);
        },
    };
    let (registered_at, i) = match parse_opt_string(&v, i) {
        Option::Some(x) => x,
        Option::None => {
            return Err(SettingsError::Parse);
        },
    };
    let i = match expect_comma(&v, i) {
        Option::Some(i) => i,
        Option::None => {
            return Err(SettingsError::Parse);
        },
    };
    let i = match expect_key(&v, i, "\"show_tray\"") {
        Option::Some(i) => i,
        Option::None => {
            return Err(SettingsError::Parse);
        },
    };
    let (show_tray, i) = match parse_opt_bool(&v, i) {
        Option::Some(x) => x,
        Option::None => {
            return Err(SettingsError::Parse);
        },
    };
    let i = skip_ws(&v, i);
    let i = match expect_lit(&v, i, "}") {
        Option::Some(i) => i,
        Option::None => {
            return Err(SettingsError::Parse);
        },
    };
    let i = skip_ws(&v, i);
    if i != v.len() {
        return Err(SettingsError::Parse);
    }
    Ok(
        Settings {
            site_id,
            device_id,
            guid,
            api_host,
            hostname,
            installed_at,
            registered_at,
            show_tray,
        },
    )
}

// ---------------------------------------------------------------------
// Transitions
// ---------------------------------------------------------------------

/// A record counts as registered exactly when `registered_at` is set.
pub open spec fn spec_is_registered(v: SpecSettings) -> bool {
    v.registered_at is Some
}

impl Settings {
    /// Whether this record has completed registration.
    pub fn is_registered(&self) -> (r: bool)
        ensures
            r == spec_is_registered(self@),
    {
        self.registered_at.is_some()
    }
}

/// Registration state as seen from a load attempt: `true` only for a
/// record that loaded and carries `registered_at`; any load failure
/// (including the file being absent) counts as not registered, the safe
/// default under ambiguity.
pub fn is_device_registered(loaded: &Result<Settings, SettingsError>) -> (r: bool)
    ensures
        r == match loaded {
            Result::Ok(s) => spec_is_registered(s@),
            Result::Err(_) => false,
        },
{
    match loaded {
        Result::Ok(s) => s.is_registered(),
        Result::Err(_) => false,
    }
}

/// What completion does: a record with both `guid` and `hostname`
/// present is returned unchanged (and the flag says no write is owed);
/// otherwise the missing fields are filled from the supplied resolver
/// results, and `None` comes back when a needed result is absent.
pub open spec fn spec_complete(
    v: SpecSettings,
    machine_guid: Option<Seq<char>>,
    os_hostname: Option<Seq<char>>,
) -> Option<(SpecSettings, bool)> {
    if v.guid is Some && v.hostname is Some {
        Some((v, false))
    } else {
        let g = if v.guid is Some {
            v.guid
        } else {
            machine_guid
        };
        let h = if v.hostname is Some {
            v.hostname
        } else {
            os_hostname
        };
        if g is Some && h is Some {
            Some((SpecSettings { guid: g, hostname: h, ..v }, true))
        } else {
            None
        }
    }
}

/// Fills `guid` and `hostname` if absent, from the machine identifier
/// and OS hostname the caller resolved. The flag is `true` exactly when
/// the record changed and must be persisted. Fails with `Identity` when
/// a missing field has no resolver result to fill it from.
pub fn complete_settings(
    s: &Settings,
    machine_guid: Option<String>,
    os_hostname: Option<String>,
) -> (r: Result<(Settings, bool), SettingsError>)
    ensures
        r is Ok <==> spec_complete(s@, machine_guid.deep_view(), os_hostname.deep_view())
            is Some,
        r is Ok ==> r.unwrap().0@ == spec_complete(
            s@,
            machine_guid.deep_view(),
            os_hostname.deep_view(),
        ).unwrap().0 && r.unwrap().1 == spec_complete(
            s@,
            machine_guid.deep_view(),
            os_hostname.deep_view(),
        ).unwrap().1,
        r is Err ==> r.unwrap_err() == SettingsError::Identity,
{
    if s.guid.is_some() && s.hostname.is_some() {
        return Ok((s.clone(), false));
    }
    let g = if s.guid.is_some() {
        match &s.guid {
            Option::Some(x) => Some(x.clone()),
            Option::None => None,
        }
    } else {
        machine_guid
    };
    let h = if s.hostname.is_some() {
        match &s.hostname {
            Option::Some(x) => Some(x.clone()),
            Option::None => None,
        }
    } else {
        os_hostname
    };
    if g.is_none() || h.is_none() {
        return Err(SettingsError::Identity);
    }
    let mut out = s.clone();
    out.guid = g;
    out.hostname = h;
    Ok((out, true))
}

/// What a successful registration writes: the server-assigned
/// `device_id` and `guid`, and `registered_at` set to the supplied
/// timestamp; every other field is kept.
pub open spec fn spec_apply_registration(
    v: SpecSettings,
    device_id: Seq<char>,
    guid: Seq<char>,
    now: Seq<char>,
) -> SpecSettings {
    SpecSettings {
        device_id: Some(device_id),
        guid: Some(guid),
        registered_at: Some(now),
        ..v
    }
}

/// Applies a successful registration response to the record, stamping
/// `registered_at` with the supplied time. The caller checks
/// [`is_device_registered`] first and persists the result; `device_id`,
/// `guid` and `registered_at` change together or not at all.
pub fn apply_registration_at(
    settings: &mut Settings,
    device_id: String,
    guid: String,
    now: String,
)
    ensures
        final(settings)@ == spec_apply_registration(old(settings)@, device_id@, guid@, now@),
{
    settings.device_id = Some(device_id);
    settings.guid = Some(guid);
    settings.registered_at = Some(now);
}

/// Relies on `chrono::Utc::now` and `DateTime::to_rfc3339`: the current
/// time in RFC 3339 form. The value depends on the clock, so nothing is
/// promised of it. `Utc::now` would terminate the process on a clock
/// set before the Unix epoch; that state is tested first and yields the
/// empty string instead.
#[verifier::external_body]
fn now_rfc3339() -> (r: String) {
    let before_epoch = std::time::SystemTime::now()
        .duration_since(std::time::UNIX_EPOCH)
        .is_err();
    if before_epoch {
        return String::new();
    }
    chrono::Utc::now().to_rfc3339()
}

/// Applies a successful registration response to the record, stamping
/// `registered_at` with the current time. The caller checks
/// [`is_device_registered`] first and persists the result; `device_id`,
/// `guid` and `registered_at` change together or not at all.
pub fn update_from_registration(settings: &mut Settings, device_id: String, guid: String)
    ensures
        exists|now: Seq<char>|
            final(settings)@ == #[trigger] spec_apply_registration(
                old(settings)@,
                device_id@,
                guid@,
                now,
            ),
{
    let now = now_rfc3339();
    apply_registration_at(settings, device_id, guid, now);
}

// ---------------------------------------------------------------------
// Laws
// ---------------------------------------------------------------------

/// Completion is idempotent: once a record has completed (with any
/// resolver results), completing it again returns it unchanged, needs
/// no resolver result, and asks for no write.
pub proof fn lemma_complete_idempotent(
    v: SpecSettings,
    g1: Option<Seq<char>>,
    h1: Option<Seq<char>>,
    g2: Option<Seq<char>>,
    h2: Option<Seq<char>>,
)
    requires
        spec_complete(v, g1, h1) is Some,
    ensures
        spec_complete(spec_complete(v, g1, h1).unwrap().0, g2, h2) == Some(
            (spec_complete(v, g1, h1).unwrap().0, false),
        ),
{
}

/// Registration is one-way: applying a registration response yields a
/// record that is registered, carries `device_id` and `guid` (the
/// completeness invariant), is registered again on every subsequent
/// load of what was persisted, and stays registered under completion —
/// the only other transition this crate has. No transition here clears
/// `registered_at`; no unregister operation exists.
pub proof fn lemma_registration_one_way(
    v: SpecSettings,
    device_id: Seq<char>,
    guid: Seq<char>,
    now: Seq<char>,
    g: Option<Seq<char>>,
    h: Option<Seq<char>>,
)
    ensures
        spec_is_registered(spec_apply_registration(v, device_id, guid, now)),
        spec_apply_registration(v, device_id, guid, now).device_id is Some,
        spec_apply_registration(v, device_id, guid, now).guid is Some,
        p_settings(json_of_settings(spec_apply_registration(v, device_id, guid, now))) == Some(
            spec_apply_registration(v, device_id, guid, now),
        ),
        spec_complete(spec_apply_registration(v, device_id, guid, now), g, h) is Some
            ==> spec_is_registered(
            spec_complete(spec_apply_registration(v, device_id, guid, now), g, h).unwrap().0,
        ),
{
    lemma_settings_roundtrip(spec_apply_registration(v, device_id, guid, now));
}


// The round-trip proof walks the encoded text token by token; it is
// split in three so each piece stays within the prover's budget. Each
// helper pins the decoder's outcome at the positions the encoder's
// layout dictates.

/// Positions of the encoded fields inside the encoder's output.
pub open spec fn rt_b1(v: SpecSettings) -> int {
    11 + jstring(v.site_id).len() as int
}

pub open spec fn rt_b2(v: SpecSettings) -> int {
    rt_b1(v) + 13 + jopt_string(v.device_id).len() as int
}

pub open spec fn rt_b3(v: SpecSettings) -> int {
    rt_b2(v) + 8 + jopt_string(v.guid).len() as int
}

pub open spec fn rt_b4(v: SpecSettings) -> int {
    rt_b3(v) + 12 + jstring(v.api_host).len() as int
}

pub open spec fn rt_b5(v: SpecSettings) -> int {
    rt_b4(v) + 12 + jopt_string(v.hostname).len() as int
}

pub open spec fn rt_b6(v: SpecSettings) -> int {
    rt_b5(v) + 16 + jstring(v.installed_at).len() as int
}

pub open spec fn rt_b7(v: SpecSettings) -> int {
    rt_b6(v) + 17 + jopt_string(v.registered_at).len() as int
}

pub open spec fn rt_b8(v: SpecSettings) -> int {
    rt_b7(v) + 13 + jopt_bool(v.show_tray).len() as int
}

#[verifier::rlimit(100)]
#[verifier::spinoff_prover]
proof fn lemma_rt_part1(v: SpecSettings, t: Seq<char>)
    requires
        t == json_of_settings(v),
    ensures
        p_ws(t, 0) == 0,
        p_lit(t, 0, "{"@) == Some(1nat),
        p_key(t, 1, "\"site_id\""@) == Some(11nat),
        p_string(t, 11) == Some((v.site_id, rt_b1(v) as nat)),
{
    reveal_strlit("{\"site_id\":");
    reveal_strlit(",\"device_id\":");
    reveal_strlit("{");
    reveal_strlit("\"site_id\"");
    reveal_strlit("site_id");
    let s1 = jstring(v.site_id);
    crate::json::lemma_jstring_head(v.site_id);
    let a1: int = 11;
    let b1 = rt_b1(v);
    assert(t.len() >= b1 + 13);
    assert(t.subrange(0, 1) =~= "{"@);
    assert(t[0] == '{') by {
        assert(t.subrange(0, 1)[0] == t[0]);
    }
    lemma_p_ws_at(t, 0);
    lemma_p_lit_at(t, 0, "{"@);
    assert(t.subrange(1, a1) =~= seq!['"'] + "site_id"@ + seq!['"', ':']);
    assert(t.subrange(a1, b1) =~= s1);
    assert(t[a1] == s1[0]) by {
        assert(t.subrange(a1, b1)[0] == t[a1]);
    }
    lemma_p_key_at(t, 1, "site_id"@);
    assert("\"site_id\""@ =~= seq!['"'] + "site_id"@ + seq!['"']);
    lemma_p_string_at(t, a1 as nat, v.site_id);
}

#[verifier::rlimit(100)]
#[verifier::spinoff_prover]
proof fn lemma_rt_part1b(v: SpecSettings, t: Seq<char>)
    requires
        t == json_of_settings(v),
    ensures
        p_comma(t, rt_b1(v) as nat) == Some((rt_b1(v) + 1) as nat),
        p_key(t, (rt_b1(v) + 1) as nat, "\"device_id\""@) == Some((rt_b1(v) + 13) as nat),
        p_opt_string(t, (rt_b1(v) + 13) as nat) == Some((v.device_id, rt_b2(v) as nat)),
{
    reveal_strlit("{\"site_id\":");
    reveal_strlit(",\"device_id\":");
    reveal_strlit(",\"guid\":");
    reveal_strlit("\"device_id\"");
    reveal_strlit("device_id");
    let s2 = jopt_string(v.device_id);
    crate::json::lemma_jopt_string_head(v.device_id);
    let b1 = rt_b1(v);
    let a2: int = b1 + 13;
    let b2 = rt_b2(v);
    assert(t.len() >= b2 + 8);
    assert(t.subrange(b1, a2) =~= ",\"device_id\":"@);
    assert(t[b1] == ',') by {
        assert(t.subrange(b1, a2)[0] == t[b1]);
    }
    lemma_p_comma_at(t, b1 as nat);
    assert(t.subrange(b1 + 1, a2) =~= seq!['"'] + "device_id"@ + seq!['"', ':']);
    assert(t.subrange(a2, b2) =~= s2);
    assert(t[a2] == s2[0]) by {
        assert(t.subrange(a2, b2)[0] == t[a2]);
    }
    lemma_p_key_at(t, (b1 + 1) as nat, "device_id"@);
    assert("\"device_id\""@ =~= seq!['"'] + "device_id"@ + seq!['"']);
    lemma_p_opt_string_at(t, a2 as nat, v.device_id);
}

#[verifier::rlimit(100)]
#[verifier::spinoff_prover]
proof fn lemma_rt_part1c(v: SpecSettings, t: Seq<char>)
    requires
        t == json_of_settings(v),
    ensures
        p_comma(t, rt_b2(v) as nat) == Some((rt_b2(v) + 1) as nat),
        p_key(t, (rt_b2(v) + 1) as nat, "\"guid\""@) == Some((rt_b2(v) + 8) as nat),
        p_opt_string(t, (rt_b2(v) + 8) as nat) == Some((v.guid, rt_b3(v) as nat)),
{
    reveal_strlit("{\"site_id\":");
    reveal_strlit(",\"device_id\":");
    reveal_strlit(",\"guid\":");
    reveal_strlit(",\"api_host\":");
    reveal_strlit("\"guid\"");
    reveal_strlit("guid");
    let s3 = jopt_string(v.guid);
    crate::json::lemma_jopt_string_head(v.guid);
    let b2 = rt_b2(v);
    let a3: int = b2 + 8;
    let b3 = rt_b3(v);
    assert(t.len() >= b3 + 12);
    assert(t.subrange(b2, a3) =~= ",\"guid\":"@);
    assert(t[b2] == ',') by {
        assert(t.subrange(b2, a3)[0] == t[b2]);
    }
    lemma_p_comma_at(t, b2 as nat);
    assert(t.subrange(b2 + 1, a3) =~= seq!['"'] + "guid"@ + seq!['"', ':']);
    assert(t.subrange(a3, b3) =~= s3);
    assert(t[a3] == s3[0]) by {
        assert(t.subrange(a3, b3)[0] == t[a3]);
    }
    lemma_p_key_at(t, (b2 + 1) as nat, "guid"@);
    assert("\"guid\""@ =~= seq!['"'] + "guid"@ + seq!['"']);
    lemma_p_opt_string_at(t, a3 as nat, v.guid);
}

#[verifier::rlimit(100)]
#[verifier::spinoff_prover]
proof fn lemma_rt_part2(v: SpecSettings, t: Seq<char>)
    requires
        t == json_of_settings(v),
    ensures
        p_comma(t, rt_b3(v) as nat) == Some((rt_b3(v) + 1) as nat),
        p_key(t, (rt_b3(v) + 1) as nat, "\"api_host\""@) == Some((rt_b3(v) + 12) as nat),
        p_string(t, (rt_b3(v) + 12) as nat) == Some((v.api_host, rt_b4(v) as nat)),
        p_comma(t, rt_b4(v) as nat) == Some((rt_b4(v) + 1) as nat),
        p_key(t, (rt_b4(v) + 1) as nat, "\"hostname\""@) == Some((rt_b4(v) + 12) as nat),
        p_opt_string(t, (rt_b4(v) + 12) as nat) == Some((v.hostname, rt_b5(v) as nat)),
{
    reveal_strlit("{\"site_id\":");
    reveal_strlit(",\"device_id\":");
    reveal_strlit(",\"guid\":");
    reveal_strlit(",\"api_host\":");
    reveal_strlit(",\"hostname\":");
    reveal_strlit(",\"installed_at\":");
    reveal_strlit("\"api_host\"");
    reveal_strlit("api_host");
    reveal_strlit("\"hostname\"");
    reveal_strlit("hostname");
    let s4 = jstring(v.api_host);
    let s5 = jopt_string(v.hostname);
    crate::json::lemma_jstring_head(v.api_host);
    crate::json::lemma_jopt_string_head(v.hostname);
    let b3 = rt_b3(v);
    let a4: int = b3 + 12;
    let b4 = rt_b4(v);
    let a5: int = b4 + 12;
    let b5 = rt_b5(v);
    assert(t.len() >= b5 + 16);
    assert(t.subrange(b3, a4) =~= ",\"api_host\":"@);
    assert(t[b3] == ',') by {
        assert(t.subrange(b3, a4)[0] == t[b3]);
    }
    lemma_p_comma_at(t, b3 as nat);
    assert(t.subrange(b3 + 1, a4) =~= seq!['"'] + "api_host"@ + seq!['"', ':']);
    assert(t.subrange(a4, b4) =~= s4);
    assert(t[a4] == s4[0]) by {
        assert(t.subrange(a4, b4)[0] == t[a4]);
    }
    lemma_p_key_at(t, (b3 + 1) as nat, "api_host"@);
    assert("\"api_host\""@ =~= seq!['"'] + "api_host"@ + seq!['"']);
    lemma_p_string_at(t, a4 as nat, v.api_host);
    assert(t.subrange(b4, a5) =~= ",\"hostname\":"@);
    assert(t[b4] == ',') by {
        assert(t.subrange(b4, a5)[0] == t[b4]);
    }
    lemma_p_comma_at(t, b4 as nat);
    assert(t.subrange(b4 + 1, a5) =~= seq!['"'] + "hostname"@ + seq!['"', ':']);
    assert(t.subrange(a5, b5) =~= s5);
    assert(t[a5] == s5[0]) by {
        assert(t.subrange(a5, b5)[0] == t[a5]);
    }
    lemma_p_key_at(t, (b4 + 1) as nat, "hostname"@);
    assert("\"hostname\""@ =~= seq!['"'] + "hostname"@ + seq!['"']);
    lemma_p_opt_string_at(t, a5 as nat, v.hostname);
}

#[verifier::rlimit(100)]
#[verifier::spinoff_prover]
proof fn lemma_rt_part2b(v: SpecSettings, t: Seq<char>)
    requires
        t == json_of_settings(v),
    ensures
        p_comma(t, rt_b5(v) as nat) == Some((rt_b5(v) + 1) as nat),
        p_key(t, (rt_b5(v) + 1) as nat, "\"installed_at\""@) == Some((rt_b5(v) + 16) as nat),
        p_string(t, (rt_b5(v) + 16) as nat) == Some((v.installed_at, rt_b6(v) as nat)),
{
    reveal_strlit("{\"site_id\":");
    reveal_strlit(",\"device_id\":");
    reveal_strlit(",\"guid\":");
    reveal_strlit(",\"api_host\":");
    reveal_strlit(",\"hostname\":");
    reveal_strlit(",\"installed_at\":");
    reveal_strlit(",\"registered_at\":");
    reveal_strlit("\"installed_at\"");
    reveal_strlit("installed_at");
    let s6 = jstring(v.installed_at);
    crate::json::lemma_jstring_head(v.installed_at);
    let b5 = rt_b5(v);
    let a6: int = b5 + 16;
    let b6 = rt_b6(v);
    assert(t.len() >= b6 + 17);
    assert(t.subrange(b5, a6) =~= ",\"installed_at\":"@);
    assert(t[b5] == ',') by {
        assert(t.subrange(b5, a6)[0] == t[b5]);
    }
    lemma_p_comma_at(t, b5 as nat);
    assert(t.subrange(b5 + 1, a6) =~= seq!['"'] + "installed_at"@ + seq!['"', ':']);
    assert(t.subrange(a6, b6) =~= s6);
    assert(t[a6] == s6[0]) by {
        assert(t.subrange(a6, b6)[0] == t[a6]);
    }
    lemma_p_key_at(t, (b5 + 1) as nat, "installed_at"@);
    assert("\"installed_at\""@ =~= seq!['"'] + "installed_at"@ + seq!['"']);
    lemma_p_string_at(t, a6 as nat, v.installed_at);
}

#[verifier::rlimit(100)]
#[verifier::spinoff_prover]
proof fn lemma_rt_part3(v: SpecSettings, t: Seq<char>)
    requires
        t == json_of_settings(v),
    ensures
        p_comma(t, rt_b6(v) as nat) == Some((rt_b6(v) + 1) as nat),
        p_key(t, (rt_b6(v) + 1) as nat, "\"registered_at\""@) == Some((rt_b6(v) + 17) as nat),
        p_opt_string(t, (rt_b6(v) + 17) as nat) == Some((v.registered_at, rt_b7(v) as nat)),
        p_comma(t, rt_b7(v) as nat) == Some((rt_b7(v) + 1) as nat),
        p_key(t, (rt_b7(v) + 1) as nat, "\"show_tray\""@) == Some((rt_b7(v) + 13) as nat),
        p_opt_bool(t, (rt_b7(v) + 13) as nat) == Some((v.show_tray, rt_b8(v) as nat)),
        p_ws(t, rt_b8(v) as nat) == rt_b8(v) as nat,
        p_lit(t, rt_b8(v) as nat, "}"@) == Some((rt_b8(v) + 1) as nat),
        rt_b8(v) + 1 == t.len(),
        p_ws(t, t.len() as nat) == t.len(),
{
    reveal_strlit("{\"site_id\":");
    reveal_strlit(",\"device_id\":");
    reveal_strlit(",\"guid\":");
    reveal_strlit(",\"api_host\":");
    reveal_strlit(",\"hostname\":");
    reveal_strlit(",\"installed_at\":");
    reveal_strlit(",\"registered_at\":");
    reveal_strlit(",\"show_tray\":");
    reveal_strlit("}");
    reveal_strlit("\"registered_at\"");
    reveal_strlit("registered_at");
    reveal_strlit("\"show_tray\"");
    reveal_strlit("show_tray");
    let s7 = jopt_string(v.registered_at);
    let s8 = jopt_bool(v.show_tray);
    crate::json::lemma_jopt_string_head(v.registered_at);
    crate::json::lemma_jopt_bool_head(v.show_tray);
    let b6 = rt_b6(v);
    let a7: int = b6 + 17;
    let b7 = rt_b7(v);
    let a8: int = b7 + 13;
    let b8 = rt_b8(v);
    assert(t.len() == b8 + 1);
    assert(t.subrange(b6, a7) =~= ",\"registered_at\":"@);
    assert(t[b6] == ',') by {
        assert(t.subrange(b6, a7)[0] == t[b6]);
    }
    lemma_p_comma_at(t, b6 as nat);
    assert(t.subrange(b6 + 1, a7) =~= seq!['"'] + "registered_at"@ + seq!['"', ':']);
    assert(t.subrange(a7, b7) =~= s7);
    assert(t[a7] == s7[0]) by {
        assert(t.subrange(a7, b7)[0] == t[a7]);
    }
    lemma_p_key_at(t, (b6 + 1) as nat, "registered_at"@);
    assert("\"registered_at\""@ =~= seq!['"'] + "registered_at"@ + seq!['"']);
    lemma_p_opt_string_at(t, a7 as nat, v.registered_at);
    assert(t.subrange(b7, a8) =~= ",\"show_tray\":"@);
    assert(t[b7] == ',') by {
        assert(t.subrange(b7, a8)[0] == t[b7]);
    }
    lemma_p_comma_at(t, b7 as nat);
    assert(t.subrange(b7 + 1, a8) =~= seq!['"'] + "show_tray"@ + seq!['"', ':']);
    assert(t.subrange(a8, b8) =~= s8);
    assert(t[a8] == s8[0]) by {
        assert(t.subrange(a8, b8)[0] == t[a8]);
    }
    lemma_p_key_at(t, (b7 + 1) as nat, "show_tray"@);
    assert("\"show_tray\""@ =~= seq!['"'] + "show_tray"@ + seq!['"']);
    crate::json::lemma_p_opt_bool_at(t, a8 as nat, v.show_tray);
    assert(t.subrange(b8, b8 + 1) =~= "}"@);
    assert(t[b8] == '}') by {
        assert(t.subrange(b8, b8 + 1)[0] == t[b8]);
    }
    lemma_p_ws_at(t, b8 as nat);
    lemma_p_lit_at(t, b8 as nat, "}"@);
    lemma_p_ws_at(t, t.len() as nat);
}

/// Storing then loading is the identity: for every record, the decoder
/// accepts exactly the text the encoder writes and yields that record —
/// in particular, a record persisted after registration stays
/// registered on every subsequent load.
#[verifier::rlimit(100)]
#[verifier::spinoff_prover]
pub proof fn lemma_settings_roundtrip(v: SpecSettings)
    ensures
        p_settings(json_of_settings(v)) == Some(v),
{
    let t = json_of_settings(v);
    lemma_rt_part1(v, t);
    lemma_rt_part1b(v, t);
    lemma_rt_part1c(v, t);
    lemma_rt_part2(v, t);
    lemma_rt_part2b(v, t);
    lemma_rt_part3(v, t);
    assert(p_settings(t) == Some(
        SpecSettings {
            site_id: v.site_id,
            device_id: v.device_id,
            guid: v.guid,
            api_host: v.api_host,
            hostname: v.hostname,
            installed_at: v.installed_at,
            registered_at: v.registered_at,
            show_tray: v.show_tray,
        },
    ));
    assert(SpecSettings {
        site_id: v.site_id,
        device_id: v.device_id,
        guid: v.guid,
        api_host: v.api_host,
        hostname: v.hostname,
        installed_at: v.installed_at,
        registered_at: v.registered_at,
        show_tray: v.show_tray,
    } =~= v);
}

} // verus!
