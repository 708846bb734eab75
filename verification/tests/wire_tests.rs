use agent_core::heartbeat::{
    gather_system_info, heartbeat_request_to_json, parse_heartbeat_response, prepare_heartbeat,
    process_heartbeat_response, HeartbeatError,
};
use agent_core::registration::{
    build_registration_request, parse_registration_response, process_registration_response,
    registration_request_to_json, RegistrationError,
};
use agent_core::settings::Settings;
use agent_core::Platform;

fn bare_settings() -> Settings {
    Settings {
        site_id: String::from("site-1"),
        device_id: None,
        guid: None,
        api_host: String::from("https://api.example.com"),
        hostname: None,
        installed_at: String::from("2024-01-01T00:00:00Z"),
        registered_at: None,
        show_tray: None,
    }
}

#[test]
fn registration_payload_carries_nulls_for_absent_fields() {
    // a record with only site_id and api_host set, no resolvable
    // identity fields other than the (absent) guid: every optional
    // field must still be present on the wire, as null
    let mut s = bare_settings();
    s.guid = Some(String::from("g-prior"));
    let req = build_registration_request(&s, None, None, None, None, None, "9.9.9", Platform::Linux);
    let body = registration_request_to_json(&req);
    assert_eq!(
        body,
        "{\"guid\":\"g-prior\",\"site_id\":\"site-1\",\"hostname\":\"unknown\",\
         \"version\":\"9.9.9\",\"platform\":\"linux\",\"serial\":null,\"mac\":null,\
         \"ip_address\":null,\"ext_address\":null,\"username\":null}"
    );
}

#[test]
fn registration_success_persists_assigned_identity() {
    let mut s = bare_settings();
    let body = String::from("{\"data\":{\"device_id\":\"d-1\",\"guid\":\"g-1\"}}");
    let resp = process_registration_response(
        &mut s,
        200,
        body,
        String::from("2024-05-06T07:08:09Z"),
    )
    .unwrap();
    assert_eq!(resp.data.device_id, "d-1");
    assert_eq!(resp.data.guid, "g-1");
    // exactly those values, and a non-null registered_at
    assert_eq!(s.device_id.as_deref(), Some("d-1"));
    assert_eq!(s.guid.as_deref(), Some("g-1"));
    assert_eq!(s.registered_at.as_deref(), Some("2024-05-06T07:08:09Z"));
    // untouched fields keep their values
    assert_eq!(s.site_id, "site-1");
    assert_eq!(s.api_host, "https://api.example.com");
}

#[test]
fn registration_failure_leaves_the_record_untouched() {
    let mut s = bare_settings();
    let err = process_registration_response(
        &mut s,
        503,
        String::from("server is down"),
        String::from("t"),
    )
    .unwrap_err();
    match err {
        RegistrationError::Remote { status, body } => {
            assert_eq!(status, 503);
            assert_eq!(body, "server is down");
        },
        other => panic!("unexpected failure: {:?}", other),
    }
    assert!(s.device_id.is_none());
    assert!(s.registered_at.is_none());
}

#[test]
fn registration_undecodable_success_body_fails_without_state_change() {
    let mut s = bare_settings();
    let err = process_registration_response(&mut s, 200, String::from("{}"), String::from("t"))
        .unwrap_err();
    assert!(matches!(err, RegistrationError::Decode));
    assert!(s.device_id.is_none());
    assert!(s.registered_at.is_none());
}

#[test]
fn registration_response_decoding() {
    let ok = parse_registration_response(
        " { \"data\" : { \"device_id\" : \"d\" , \"guid\" : \"g\" } } ",
    )
    .unwrap();
    assert_eq!(ok.data.device_id, "d");
    assert_eq!(ok.data.guid, "g");
    assert!(matches!(
        parse_registration_response("{\"data\":{\"device_id\":\"d\"}}"),
        Err(RegistrationError::Decode)
    ));
    assert!(matches!(parse_registration_response(""), Err(RegistrationError::Decode)));
}

#[test]
fn heartbeat_guard_requires_a_device_id() {
    // a record without device_id must fail before any network work
    let s = bare_settings();
    assert!(matches!(prepare_heartbeat(&s), Err(HeartbeatError::NotRegistered)));
    // with a device_id the guard yields the two identifying headers
    let mut s2 = bare_settings();
    s2.device_id = Some(String::from("d-9"));
    let (device_id, site_id) = prepare_heartbeat(&s2).unwrap();
    assert_eq!(device_id, "d-9");
    assert_eq!(site_id, "site-1");
}

#[test]
fn heartbeat_payload_prefers_the_record_hostname() {
    let mut s = bare_settings();
    s.hostname = Some(String::from("from-record"));
    s.guid = Some(String::from("g"));
    let req = gather_system_info(
        &s,
        String::from("from-os"),
        Some(String::from("aa:bb")),
        Some(String::from("10.0.0.2")),
        None,
        Some(String::from("user")),
        "2.0.0",
    );
    assert_eq!(req.hostname, "from-record");
    assert_eq!(req.mac_address.as_deref(), Some("aa:bb"));
    assert_eq!(req.ip_address.as_deref(), Some("10.0.0.2"));
    assert_eq!(req.ext_address, None);
    assert_eq!(req.guid.as_deref(), Some("g"));
    assert_eq!(req.username.as_deref(), Some("user"));
    assert_eq!(req.version, "2.0.0");

    let s2 = bare_settings();
    let req2 = gather_system_info(&s2, String::from("from-os"), None, None, None, None, "2.0.0");
    assert_eq!(req2.hostname, "from-os");
    assert_eq!(req2.guid, None);
}

#[test]
fn heartbeat_payload_wire_form() {
    let s = bare_settings();
    let req = gather_system_info(&s, String::from("h"), None, None, None, None, "1.0");
    assert_eq!(
        heartbeat_request_to_json(&req),
        "{\"hostname\":\"h\",\"ip_address\":null,\"ext_address\":null,\
         \"version\":\"1.0\",\"mac_address\":null,\"guid\":null,\"username\":null}"
    );
}

#[test]
fn heartbeat_response_decoding() {
    let ok = parse_heartbeat_response("{\"data\":{\"guid\":\"g-2\"}}").unwrap();
    assert_eq!(ok.data.guid, "g-2");
    let ok_ws = parse_heartbeat_response(" { \"data\" : { \"guid\" : \"g\" } } ").unwrap();
    assert_eq!(ok_ws.data.guid, "g");
    assert!(matches!(parse_heartbeat_response("{\"data\":{}}"), Err(HeartbeatError::Decode)));
}

#[test]
fn heartbeat_transport_outcomes() {
    let ok = process_heartbeat_response(204, String::from("{\"data\":{\"guid\":\"g\"}}")).unwrap();
    assert_eq!(ok.data.guid, "g");
    match process_heartbeat_response(401, String::from("denied")).unwrap_err() {
        HeartbeatError::Remote { status, body } => {
            assert_eq!(status, 401);
            assert_eq!(body, "denied");
        },
        other => panic!("unexpected failure: {:?}", other),
    }
    assert!(matches!(
        process_heartbeat_response(200, String::from("nope")).unwrap_err(),
        HeartbeatError::Decode
    ));
}
