use agent_core::settings::{
    complete_settings, get_api_endpoint, get_config_dir, get_settings_path, is_device_registered,
    apply_registration_at, parse_settings, settings_to_json, Settings, SettingsError,
};
use agent_core::Platform;

fn base_settings() -> Settings {
    Settings {
        site_id: String::from("site-7"),
        device_id: None,
        guid: None,
        api_host: String::from("https://api.example.com"),
        hostname: None,
        installed_at: String::from("2024-01-02T03:04:05Z"),
        registered_at: None,
        show_tray: None,
    }
}

#[test]
fn config_paths_per_platform() {
    assert_eq!(get_config_dir(Platform::Windows), "C:\\ProgramData\\MSPAgent");
    assert_eq!(get_config_dir(Platform::MacOs), "/Library/Application Support/MSPAgent");
    assert_eq!(get_config_dir(Platform::Linux), "/etc/mspagent");
    assert_eq!(
        get_settings_path(Platform::Windows),
        "C:\\ProgramData\\MSPAgent\\settings.json"
    );
    assert_eq!(get_settings_path(Platform::Linux), "/etc/mspagent/settings.json");
}

#[test]
fn api_endpoint_joins_host_and_path() {
    let s = base_settings();
    assert_eq!(get_api_endpoint(&s, "/v1.0/register"), "https://api.example.com/v1.0/register");
}

#[test]
fn serialize_all_fields_absent_writes_nulls() {
    let s = base_settings();
    let text = settings_to_json(&s);
    assert_eq!(
        text,
        "{\"site_id\":\"site-7\",\"device_id\":null,\"guid\":null,\
         \"api_host\":\"https://api.example.com\",\"hostname\":null,\
         \"installed_at\":\"2024-01-02T03:04:05Z\",\"registered_at\":null,\
         \"show_tray\":null}"
    );
}

#[test]
fn settings_round_trip_plain() {
    let mut s = base_settings();
    s.device_id = Some(String::from("d-42"));
    s.guid = Some(String::from("g-42"));
    s.hostname = Some(String::from("host-a"));
    s.registered_at = Some(String::from("2024-02-02T00:00:00Z"));
    s.show_tray = Some(true);
    let text = settings_to_json(&s);
    let back = parse_settings(&text).unwrap();
    assert_eq!(back.site_id, "site-7");
    assert_eq!(back.device_id.as_deref(), Some("d-42"));
    assert_eq!(back.guid.as_deref(), Some("g-42"));
    assert_eq!(back.api_host, "https://api.example.com");
    assert_eq!(back.hostname.as_deref(), Some("host-a"));
    assert_eq!(back.installed_at, "2024-01-02T03:04:05Z");
    assert_eq!(back.registered_at.as_deref(), Some("2024-02-02T00:00:00Z"));
    assert_eq!(back.show_tray, Some(true));
}

#[test]
fn settings_round_trip_special_characters() {
    let mut s = base_settings();
    s.hostname = Some(String::from("we\"ird\\host\nname\ttab\u{1}ctl"));
    s.guid = Some(String::from("Ünï-码-🎈"));
    let text = settings_to_json(&s);
    let back = parse_settings(&text).unwrap();
    assert_eq!(back.hostname.as_deref(), Some("we\"ird\\host\nname\ttab\u{1}ctl"));
    assert_eq!(back.guid.as_deref(), Some("Ünï-码-🎈"));
}

#[test]
fn parse_accepts_whitespace_between_tokens() {
    let text = "  { \"site_id\" : \"s\" , \"device_id\" : null , \"guid\" : null ,\n\
                \"api_host\" : \"h\" , \"hostname\" : null , \"installed_at\" : \"t\" ,\n\
                \"registered_at\" : null , \"show_tray\" : false }  ";
    let s = parse_settings(text).unwrap();
    assert_eq!(s.site_id, "s");
    assert_eq!(s.api_host, "h");
    assert_eq!(s.show_tray, Some(false));
}

#[test]
fn parse_accepts_short_escapes() {
    let text = "{\"site_id\":\"a\\/b\\r\\n\\t\\u0007\",\"device_id\":null,\"guid\":null,\
                \"api_host\":\"h\",\"hostname\":null,\"installed_at\":\"t\",\
                \"registered_at\":null,\"show_tray\":null}";
    let s = parse_settings(text).unwrap();
    assert_eq!(s.site_id, "a/b\r\n\t\u{7}");
}

#[test]
fn parse_rejects_malformed_records() {
    assert_eq!(parse_settings("").unwrap_err(), SettingsError::Parse);
    assert_eq!(parse_settings("{}").unwrap_err(), SettingsError::Parse);
    assert_eq!(parse_settings("not json at all").unwrap_err(), SettingsError::Parse);
    // a wrong key name in place of site_id
    let bad = "{\"site\":\"s\",\"device_id\":null,\"guid\":null,\"api_host\":\"h\",\
               \"hostname\":null,\"installed_at\":\"t\",\"registered_at\":null,\
               \"show_tray\":null}";
    assert_eq!(parse_settings(bad).unwrap_err(), SettingsError::Parse);
    // trailing garbage after the record
    let good = settings_to_json(&base_settings());
    let trailing = format!("{} x", good);
    assert_eq!(parse_settings(&trailing).unwrap_err(), SettingsError::Parse);
    // an unterminated string
    let unterminated = "{\"site_id\":\"s";
    assert_eq!(parse_settings(unterminated).unwrap_err(), SettingsError::Parse);
}

#[test]
fn complete_fills_missing_fields_and_reports_change() {
    let s = base_settings();
    let (done, changed) = complete_settings(
        &s,
        Some(String::from("machine-1")),
        Some(String::from("host-1")),
    )
    .unwrap();
    assert!(changed);
    assert_eq!(done.guid.as_deref(), Some("machine-1"));
    assert_eq!(done.hostname.as_deref(), Some("host-1"));
    assert_eq!(done.site_id, "site-7");
}

#[test]
fn complete_is_idempotent() {
    let s = base_settings();
    let (done, changed) = complete_settings(
        &s,
        Some(String::from("machine-1")),
        Some(String::from("host-1")),
    )
    .unwrap();
    assert!(changed);
    // the second call resolves nothing, needs no resolver result, asks
    // for no write, and returns the record unchanged
    let (again, changed_again) = complete_settings(&done, None, None).unwrap();
    assert!(!changed_again);
    assert_eq!(again.guid, done.guid);
    assert_eq!(again.hostname, done.hostname);
    assert_eq!(again.site_id, done.site_id);
}

#[test]
fn complete_fails_without_a_needed_resolver_result() {
    let s = base_settings();
    assert_eq!(
        complete_settings(&s, None, Some(String::from("h"))).unwrap_err(),
        SettingsError::Identity
    );
    assert_eq!(
        complete_settings(&s, Some(String::from("g")), None).unwrap_err(),
        SettingsError::Identity
    );
}

#[test]
fn complete_keeps_present_fields() {
    let mut s = base_settings();
    s.guid = Some(String::from("kept-guid"));
    let (done, changed) = complete_settings(&s, Some(String::from("other")), Some(String::from("h")))
        .unwrap();
    assert!(changed);
    assert_eq!(done.guid.as_deref(), Some("kept-guid"));
    assert_eq!(done.hostname.as_deref(), Some("h"));
}

#[test]
fn registration_is_one_way() {
    let mut s = base_settings();
    assert!(!s.is_registered());
    apply_registration_at(
        &mut s,
        String::from("d-1"),
        String::from("g-1"),
        String::from("2024-03-01T00:00:00Z"),
    );
    assert!(s.is_registered());
    assert_eq!(s.device_id.as_deref(), Some("d-1"));
    assert_eq!(s.guid.as_deref(), Some("g-1"));
    // every subsequent load of the persisted record is still registered
    let text = settings_to_json(&s);
    let loaded = parse_settings(&text).unwrap();
    assert!(loaded.is_registered());
    // completion never clears it
    let (done, _) = complete_settings(&loaded, None, Some(String::from("h"))).unwrap();
    assert!(done.is_registered());
}

#[test]
fn load_failure_counts_as_not_registered() {
    assert!(!is_device_registered(&Err(SettingsError::NotFound)));
    assert!(!is_device_registered(&Err(SettingsError::Parse)));
    let mut s = base_settings();
    assert!(!is_device_registered(&Ok(s.clone())));
    s.registered_at = Some(String::from("t"));
    assert!(is_device_registered(&Ok(s)));
}
