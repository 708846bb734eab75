use agent_core::identity::{
    get_local_ip, get_machine_id, get_primary_mac, get_rmm_device_id, get_serial_number,
    get_username, select_primary_mac, select_rmm_id, IdentityError, NetInterface,
};
use agent_core::settings::update_from_registration;
use agent_core::settings::Settings;
use agent_core::Platform;

#[test]
fn machine_id_windows_registry_output() {
    let output = "\r\n\
        HKEY_LOCAL_MACHINE\\SOFTWARE\\Microsoft\\Cryptography\r\n\
        \u{20}   MachineGuid    REG_SZ    11111111-2222-3333-4444-555555555555\r\n";
    assert_eq!(
        get_machine_id(Platform::Windows, output).unwrap(),
        "11111111-2222-3333-4444-555555555555"
    );
    // a mention without a value keeps scanning, and none found fails
    assert_eq!(
        get_machine_id(Platform::Windows, "MachineGuid\nno match here").unwrap_err(),
        IdentityError::NotFound
    );
    assert_eq!(get_machine_id(Platform::Windows, "").unwrap_err(), IdentityError::NotFound);
}

#[test]
fn machine_id_macos_platform_expert_output() {
    let output = "+-o MacPro  <class IOPlatformExpertDevice>\n\
        {\n  \"IOPlatformUUID\" = \"AAAAAAAA-BBBB-CCCC-DDDD-EEEEEEEEEEEE\"\n}\n";
    assert_eq!(
        get_machine_id(Platform::MacOs, output).unwrap(),
        "AAAAAAAA-BBBB-CCCC-DDDD-EEEEEEEEEEEE"
    );
    assert_eq!(get_machine_id(Platform::MacOs, "no uuid").unwrap_err(), IdentityError::NotFound);
    // an empty quoted value is no identifier
    assert_eq!(
        get_machine_id(Platform::MacOs, "\"IOPlatformUUID\" = \"\"\n").unwrap_err(),
        IdentityError::NotFound
    );
}

#[test]
fn machine_id_linux_file_content() {
    assert_eq!(get_machine_id(Platform::Linux, "abcdef123456\n").unwrap(), "abcdef123456");
    assert_eq!(get_machine_id(Platform::Linux, "  \n ").unwrap_err(), IdentityError::NotFound);
}

#[test]
fn serial_windows_skips_header_and_label() {
    let output = "SerialNumber\r\n\r\nXYZ-123   \r\n";
    assert_eq!(get_serial_number(Platform::Windows, output).unwrap(), "XYZ-123");
    // the column label alone is no serial
    assert_eq!(get_serial_number(Platform::Windows, "SerialNumber\nSerialNumber\n"), None);
    assert_eq!(get_serial_number(Platform::Windows, ""), None);
}

#[test]
fn serial_macos_after_the_colon() {
    let output = "Hardware:\n\n      Serial Number (system): C02ABC123\n";
    assert_eq!(get_serial_number(Platform::MacOs, output).unwrap(), "C02ABC123");
    assert_eq!(get_serial_number(Platform::MacOs, "nothing"), None);
}

#[test]
fn serial_macos_empty_value_is_absent() {
    // a colon with nothing after it yields no serial
    assert_eq!(get_serial_number(Platform::MacOs, "Serial Number:"), None);
    assert_eq!(get_serial_number(Platform::MacOs, "Serial Number:   \n"), None);
    // and the scan goes on to a later line that carries a value
    let output = "Serial Number:\nSerial Number: REAL-1\n";
    assert_eq!(get_serial_number(Platform::MacOs, output).unwrap(), "REAL-1");
}

#[test]
fn serial_linux_trims_the_file() {
    assert_eq!(get_serial_number(Platform::Linux, " PF123XYZ \n").unwrap(), "PF123XYZ");
    assert_eq!(get_serial_number(Platform::Linux, "\n"), None);
}

#[test]
fn mac_windows_first_csv_field_unquoted() {
    let output = "\"AA-BB-CC-DD-EE-FF\",\"\\Device\\Tcpip_{X}\"\r\nmore\r\n";
    assert_eq!(get_primary_mac(Platform::Windows, output).unwrap(), "AA-BB-CC-DD-EE-FF");
    assert_eq!(get_primary_mac(Platform::Windows, ""), None);
}

#[test]
fn mac_windows_skips_empty_and_all_zero_fields() {
    // an empty field and the all-zero address are never the primary one
    let output = "\"\",\"x\"\n\"00-00-00-00-00-00\",\"y\"\n\"AA-BB-CC-00-11-22\",\"z\"\n";
    assert_eq!(get_primary_mac(Platform::Windows, output).unwrap(), "AA-BB-CC-00-11-22");
    assert_eq!(get_primary_mac(Platform::Windows, "\"00:00:00:00:00:00\",\"y\"\n"), None);
}

#[test]
fn mac_macos_second_field_of_the_ether_line() {
    let output = "en0: flags=8863\n\tether aa:bb:cc:dd:ee:ff \n\tinet 10.0.0.5\n";
    assert_eq!(get_primary_mac(Platform::MacOs, output).unwrap(), "aa:bb:cc:dd:ee:ff");
    assert_eq!(get_primary_mac(Platform::MacOs, "en0: flags\n"), None);
    // the all-zero address is never the primary one; the scan goes on
    let zeros = "\tether 00:00:00:00:00:00\n\tether de:ad:be:ef:00:09\n";
    assert_eq!(get_primary_mac(Platform::MacOs, zeros).unwrap(), "de:ad:be:ef:00:09");
    assert_eq!(get_primary_mac(Platform::MacOs, "\tether 00:00:00:00:00:00\n"), None);
}

#[test]
fn mac_linux_selects_first_acceptable_interface() {
    let entries = vec![
        NetInterface { name: String::from("lo"), address: String::from("00:00:00:00:00:00\n") },
        NetInterface { name: String::from("eth0"), address: String::from("00:00:00:00:00:00\n") },
        NetInterface { name: String::from("eth1"), address: String::from(" \n") },
        NetInterface { name: String::from("eth2"), address: String::from("de:ad:be:ef:00:01\n") },
        NetInterface { name: String::from("eth3"), address: String::from("de:ad:be:ef:00:02\n") },
    ];
    assert_eq!(select_primary_mac(&entries).unwrap(), "de:ad:be:ef:00:01");
    // a loopback's address is never chosen, even when valid
    let lo_only = vec![NetInterface {
        name: String::from("lo0"),
        address: String::from("de:ad:be:ef:00:03"),
    }];
    assert_eq!(select_primary_mac(&lo_only), None);
    assert_eq!(select_primary_mac(&Vec::new()), None);
}

#[test]
fn rmm_id_from_agent_state_file() {
    // exercises the JSON extraction: handing the text back unchanged
    // would yield the whole object, not the identifier
    let content = "{\"deviceUID\": \"  rmm-12345  \", \"other\": 1}";
    assert_eq!(get_rmm_device_id(content).unwrap(), "rmm-12345");
    assert_eq!(get_rmm_device_id("{\"deviceUID\": \"   \"}"), None);
    assert_eq!(get_rmm_device_id("{\"other\": true}"), None);
    assert_eq!(get_rmm_device_id("not json"), None);
    assert_eq!(get_rmm_device_id("{\"deviceUID\": 7}"), None);
}

#[test]
fn rmm_id_selection_trims_and_rejects_empty() {
    assert_eq!(select_rmm_id(Some(String::from(" x "))).unwrap(), "x");
    assert_eq!(select_rmm_id(Some(String::from("  "))), None);
    assert_eq!(select_rmm_id(None), None);
}

#[test]
fn os_queries_are_best_effort() {
    // machine-dependent values: the calls must not panic, whatever they
    // yield on this machine
    let _ = get_username();
    let _ = get_local_ip();
}

#[test]
fn update_from_registration_stamps_the_clock() {
    let mut s = Settings {
        site_id: String::from("s"),
        device_id: None,
        guid: None,
        api_host: String::from("h"),
        hostname: None,
        installed_at: String::from("t"),
        registered_at: None,
        show_tray: None,
    };
    update_from_registration(&mut s, String::from("d"), String::from("g"));
    assert_eq!(s.device_id.as_deref(), Some("d"));
    assert_eq!(s.guid.as_deref(), Some("g"));
    let stamp = s.registered_at.expect("a registration timestamp");
    assert!(!stamp.is_empty());
}
