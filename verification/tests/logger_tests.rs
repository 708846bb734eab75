use agent_core::logger::{
    format_log_line, get_log_filename, get_log_path, get_logs_dir, rotated_log_filename,
    should_rotate_size, LogLevel, LogStore, MAX_LOG_SIZE_BYTES, MAX_ROTATED_FILES,
};
use agent_core::Platform;

#[test]
fn level_tags() {
    assert_eq!(LogLevel::Info.as_str(), "INFO");
    assert_eq!(LogLevel::Warn.as_str(), "WARN");
    assert_eq!(LogLevel::Error.as_str(), "ERROR");
}

#[test]
fn level_from_string_is_case_insensitive() {
    assert_eq!(LogLevel::from(String::from("WARN")), LogLevel::Warn);
    assert_eq!(LogLevel::from(String::from("warn")), LogLevel::Warn);
    assert_eq!(LogLevel::from(String::from("Error")), LogLevel::Error);
    assert_eq!(LogLevel::from(String::from("error")), LogLevel::Error);
    assert_eq!(LogLevel::from(String::from("INFO")), LogLevel::Info);
    assert_eq!(LogLevel::from(String::from("anything else")), LogLevel::Info);
    assert_eq!(LogLevel::from(String::from("")), LogLevel::Info);
}

#[test]
fn log_line_format() {
    assert_eq!(
        format_log_line("2024-01-02 03:04:05", LogLevel::Warn, "low disk"),
        "[2024-01-02 03:04:05][WARN] low disk\n"
    );
    assert_eq!(format_log_line("t", LogLevel::Info, ""), "[t][INFO] \n");
}

#[test]
fn log_file_names() {
    assert_eq!(get_log_filename("1.2.3"), "runtime_1.2.3.log");
    assert_eq!(get_logs_dir(Platform::Linux), "/etc/mspagent/logs");
    assert_eq!(
        get_log_path(Platform::Linux, "1.2.3"),
        "/etc/mspagent/logs/runtime_1.2.3.log"
    );
    assert_eq!(
        get_log_path(Platform::Windows, "1.2.3"),
        "C:\\ProgramData\\MSPAgent\\logs\\runtime_1.2.3.log"
    );
    assert_eq!(rotated_log_filename("1.2.3", 1), "runtime_1.2.3.log.1");
    assert_eq!(rotated_log_filename("1.2.3", 5), "runtime_1.2.3.log.5");
}

#[test]
fn rotation_threshold() {
    assert!(!should_rotate_size(MAX_LOG_SIZE_BYTES));
    assert!(should_rotate_size(MAX_LOG_SIZE_BYTES + 1));
    assert!(!should_rotate_size(0));
}

fn oversized_active() -> (Vec<String>, u64) {
    // one line just over the threshold
    let big = "x".repeat((MAX_LOG_SIZE_BYTES + 1) as usize);
    let len = big.len() as u64;
    (vec![big], len)
}

#[test]
fn rotation_shifts_generations_and_starts_fresh() {
    // an active file over the threshold and three existing generations
    let (active, active_len) = oversized_active();
    let gen = |tag: &str| vec![format!("[t][INFO] {}\n", tag)];
    let mut store = LogStore {
        active: active.clone(),
        active_len,
        rotated: vec![gen("one"), gen("two"), gen("three")],
    };
    store.write("ts", LogLevel::Info, "fresh start");
    // exactly: old .3 -> .4, .2 -> .3, .1 -> .2, active -> .1
    assert_eq!(store.rotated.len(), 4);
    assert_eq!(store.rotated[0], active);
    assert_eq!(store.rotated[1], gen("one"));
    assert_eq!(store.rotated[2], gen("two"));
    assert_eq!(store.rotated[3], gen("three"));
    // and the new active file holds only the just-written line
    assert_eq!(store.active, vec![String::from("[ts][INFO] fresh start\n")]);
}

#[test]
fn generation_cap_drops_the_oldest() {
    let gen = |tag: &str| vec![format!("[t][INFO] {}\n", tag)];
    let mut store = LogStore {
        active: Vec::new(),
        active_len: 0,
        rotated: vec![gen("a"), gen("b"), gen("c"), gen("d"), gen("e")],
    };
    // grow the active file past the threshold, then force rotations
    for round in 0..3 {
        let big = "y".repeat((MAX_LOG_SIZE_BYTES + 1) as usize);
        let (active, active_len) = (vec![big], MAX_LOG_SIZE_BYTES + 1);
        store.active = active.clone();
        store.active_len = active_len;
        store.write("ts", LogLevel::Info, &format!("round {}", round));
        // never more than the cap, the oldest dropped, nothing duplicated
        assert_eq!(store.rotated.len(), MAX_ROTATED_FILES);
        assert_eq!(store.rotated[0], active);
    }
    // after three rotations the three oldest original generations are gone
    assert_eq!(store.rotated[3], gen("a"));
    assert_eq!(store.rotated[4], gen("b"));
}

#[test]
fn each_write_appends_exactly_one_line() {
    let mut store = LogStore::new();
    let n = 10;
    for i in 0..n {
        store.write("ts", LogLevel::Info, &format!("task {}", i));
    }
    // exactly N lines, each well-formed, none interleaved or truncated
    assert_eq!(store.active.len(), n);
    for (i, line) in store.active.iter().enumerate() {
        assert_eq!(line, &format!("[ts][INFO] task {}\n", i));
    }
    assert!(store.rotated.is_empty());
}
