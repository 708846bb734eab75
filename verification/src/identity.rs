//! Best-effort device identity.
//!
//! Each platform family has one canonical source for the machine
//! identifier and best-effort sources for the hardware serial, the
//! primary interface address, and a co-installed management agent's
//! record. The embedding program runs the platform's query (a command,
//! a registry read, a file read) and hands the raw text here; what an
//! identifier *is* inside that text — which line, which field, how it
//! is trimmed — is decided and verified in this module. Every probe is
//! independent and non-fatal: a missing identifier degrades the
//! fingerprint, it never aborts registration or heartbeat.

use vstd::prelude::*;
use crate::text::{
    chars_of, string_of, trim, trim_matching, split_lines, split_whitespace, split_char, contains,
    starts_with, spec_trim, spec_trim_matching, spec_lines, spec_split_ws, spec_split_char,
    spec_contains, spec_starts_with,
};
use crate::Platform;

verus! {

/// Machine-identifier resolution failed: the platform's canonical
/// source is absent or unparseable. Never retried.
#[derive(Clone, Copy, PartialEq, Eq, Structural, Debug)]
pub enum IdentityError {
    NotFound,
}

// ---------------------------------------------------------------------
// Machine identifier
// ---------------------------------------------------------------------

/// What the Windows registry query yields: on the first line that
/// mentions `MachineGuid` and has at least three whitespace-separated
/// fields, the third field is the identifier.
pub open spec fn spec_machine_guid_windows(lines: Seq<Seq<char>>) -> Option<Seq<char>>
    decreases lines.len(),
{
    if lines.len() == 0 {
        None
    } else if spec_contains(lines[0], "MachineGuid"@) && spec_split_ws(lines[0]).len() >= 3 {
        Some(spec_split_ws(lines[0])[2])
    } else {
        spec_machine_guid_windows(lines.skip(1))
    }
}

/// What the platform-expert query yields on the Mac family: on the
/// first line that mentions `IOPlatformUUID` and has at least four
/// quote-separated pieces, the fourth piece (the quoted value) is the
/// identifier; an empty quoted value is no identifier.
pub open spec fn spec_machine_guid_macos(lines: Seq<Seq<char>>) -> Option<Seq<char>>
    decreases lines.len(),
{
    if lines.len() == 0 {
        None
    } else if spec_contains(lines[0], "IOPlatformUUID"@) && spec_split_char(lines[0], '"').len()
        > 3 && spec_split_char(lines[0], '"')[3].len() > 0 {
        Some(spec_split_char(lines[0], '"')[3])
    } else {
        spec_machine_guid_macos(lines.skip(1))
    }
}

/// The machine identifier a platform's canonical source text yields:
/// the registry line's third field on Windows, the quoted platform
/// UUID on the Mac family, and the machine-id file's trimmed content on
/// Linux (absent when the file was empty).
pub open spec fn spec_machine_guid(p: Platform, source: Seq<char>) -> Option<Seq<char>> {
    match p {
        Platform::Windows => spec_machine_guid_windows(spec_lines(source)),
        Platform::MacOs => spec_machine_guid_macos(spec_lines(source)),
        Platform::Linux => if spec_trim(source).len() > 0 {
            Some(spec_trim(source))
        } else {
            None
        },
    }
}

/// Extracts the machine identifier from the canonical source's text,
/// exactly as [`spec_machine_guid`] says; `NotFound` exactly when the
/// text holds none.
#[verifier::loop_isolation(false)]
pub fn get_machine_id(p: Platform, source: &str) -> (r: Result<String, IdentityError>)
    ensures
        r is Ok <==> spec_machine_guid(p, source@) is Some,
        r is Ok ==> r.unwrap()@ == spec_machine_guid(p, source@).unwrap(),
        r is Err ==> r.unwrap_err() == IdentityError::NotFound,
{
    let v = chars_of(source);
    match p {
        Platform::Windows => {
            let lines = split_lines(&v);
            let pat = chars_of("MachineGuid");
            let mut i: usize = 0;
            proof {
                assert(lines.deep_view().skip(0int) =~= lines.deep_view());
            }
            while i < lines.len()
                invariant
                    i <= lines@.len(),
                    pat@ == "MachineGuid"@,
                    spec_machine_guid_windows(lines.deep_view()) == spec_machine_guid_windows(
                        lines.deep_view().skip(i as int),
                    ),
                decreases lines.len() - i,
            {
                let ghost dl = lines.deep_view();
                proof {
                    assert(dl.skip(i as int)[0] == dl[i as int]);
                    assert(lines@[i as int].deep_view() == dl[i as int]);
                    assert(lines@[i as int].deep_view() =~= lines@[i as int]@);
                }
                if contains(&lines[i], &pat) {
                    let parts = split_whitespace(&lines[i]);
                    proof {
                        assert(parts.deep_view() == spec_split_ws(lines@[i as int]@));
                    }
                    if parts.len() >= 3 {
                        proof {
                            assert(parts@[2].deep_view() == parts.deep_view()[2]);
                            assert(parts@[2].deep_view() =~= parts@[2]@);
                        }
                        return Ok(string_of(&parts[2]));
                    }
                }
                proof {
                    assert(dl.skip(i as int).skip(1) =~= dl.skip(i + 1));
                }
                i = i + 1;
            }
            proof {
                assert(lines.deep_view().skip(i as int).len() == 0);
            }
            Err(IdentityError::NotFound)
        },
        Platform::MacOs => {
            let lines = split_lines(&v);
            let pat = chars_of("IOPlatformUUID");
            let mut i: usize = 0;
            proof {
                assert(lines.deep_view().skip(0int) =~= lines.deep_view());
            }
            while i < lines.len()
                invariant
                    i <= lines@.len(),
                    pat@ == "IOPlatformUUID"@,
                    spec_machine_guid_macos(lines.deep_view()) == spec_machine_guid_macos(
                        lines.deep_view().skip(i as int),
                    ),
                decreases lines.len() - i,
            {
                let ghost dl = lines.deep_view();
                proof {
                    assert(dl.skip(i as int)[0] == dl[i as int]);
                    assert(lines@[i as int].deep_view() == dl[i as int]);
                    assert(lines@[i as int].deep_view() =~= lines@[i as int]@);
                }
                if contains(&lines[i], &pat) {
                    let pieces = split_char(&lines[i], '"');
                    proof {
                        assert(pieces.deep_view() == spec_split_char(lines@[i as int]@, '"'));
                    }
                    if pieces.len() > 3 {
                        proof {
                            assert(pieces@[3].deep_view() == pieces.deep_view()[3]);
                            assert(pieces@[3].deep_view() =~= pieces@[3]@);
                        }
                        if pieces[3].len() > 0 {
                            return Ok(string_of(&pieces[3]));
                        }
                    }
                }
                proof {
                    assert(dl.skip(i as int).skip(1) =~= dl.skip(i + 1));
                }
                i = i + 1;
            }
            proof {
                assert(lines.deep_view().skip(i as int).len() == 0);
            }
            Err(IdentityError::NotFound)
        },
        Platform::Linux => {
            let t = trim(&v);
            if t.len() > 0 {
                Ok(string_of(&t))
            } else {
                Err(IdentityError::NotFound)
            }
        },
    }
}

// ---------------------------------------------------------------------
// Hardware serial
// ---------------------------------------------------------------------

/// What the Windows BIOS query yields: skipping the header line, the
/// first line whose trimmed content is nonempty and not the column
/// label is the serial.
pub open spec fn spec_serial_windows(lines: Seq<Seq<char>>) -> Option<Seq<char>>
    decreases lines.len(),
{
    if lines.len() == 0 {
        None
    } else if spec_trim(lines[0]).len() > 0 && spec_trim(lines[0]) != "SerialNumber"@ {
        Some(spec_trim(lines[0]))
    } else {
        spec_serial_windows(lines.skip(1))
    }
}

/// What the Mac hardware profile yields: on the first line that
/// mentions `Serial Number`, has a colon, and carries a nonempty
/// trimmed value after the first colon, that value is the serial; an
/// empty value is no serial.
pub open spec fn spec_serial_macos(lines: Seq<Seq<char>>) -> Option<Seq<char>>
    decreases lines.len(),
{
    if lines.len() == 0 {
        None
    } else if spec_contains(lines[0], "Serial Number"@) && spec_split_char(lines[0], ':').len()
        > 1 && spec_trim(spec_split_char(lines[0], ':')[1]).len() > 0 {
        Some(spec_trim(spec_split_char(lines[0], ':')[1]))
    } else {
        spec_serial_macos(lines.skip(1))
    }
}

/// The serial a platform's probe text yields; absent on any failure —
/// missing tool output, empty or placeholder value.
pub open spec fn spec_serial(p: Platform, source: Seq<char>) -> Option<Seq<char>> {
    match p {
        Platform::Windows => if spec_lines(source).len() == 0 {
            None
        } else {
            spec_serial_windows(spec_lines(source).skip(1))
        },
        Platform::MacOs => spec_serial_macos(spec_lines(source)),
        Platform::Linux => if spec_trim(source).len() > 0 {
            Some(spec_trim(source))
        } else {
            None
        },
    }
}

/// Extracts the hardware serial from the probe's text, exactly as
/// [`spec_serial`] says.
#[verifier::loop_isolation(false)]
pub fn get_serial_number(p: Platform, source: &str) -> (r: Option<String>)
    ensures
        r.deep_view() == spec_serial(p, source@),
{
    let v = chars_of(source);
    match p {
        Platform::Windows => {
            let lines = split_lines(&v);
            let label = chars_of("SerialNumber");
            let mut i: usize = 1;
            if lines.len() == 0 {
                proof {
                    assert(spec_lines(source@).len() == 0);
                }
                return None;
            }
            while i < lines.len()
                invariant
                    1 <= i <= lines@.len(),
                    label@ == "SerialNumber"@,
                    lines@.len() >= 1,
                    spec_serial_windows(lines.deep_view().skip(1int)) == spec_serial_windows(
                        lines.deep_view().skip(i as int),
                    ),
                decreases lines.len() - i,
            {
                let ghost dl = lines.deep_view();
                proof {
                    assert(dl.skip(i as int)[0] == dl[i as int]);
                    assert(lines@[i as int].deep_view() == dl[i as int]);
                    assert(lines@[i as int].deep_view() =~= lines@[i as int]@);
                }
                let t = trim(&lines[i]);
                if t.len() > 0 && !eq_chars(&t, &label) {
                    return Some(string_of(&t));
                }
                proof {
                    assert(dl.skip(i as int).skip(1) =~= dl.skip(i + 1));
                }
                i = i + 1;
            }
            proof {
                assert(lines.deep_view().skip(i as int).len() == 0);
            }
            None
        },
        Platform::MacOs => {
            let lines = split_lines(&v);
            let pat = chars_of("Serial Number");
            let mut i: usize = 0;
            proof {
                assert(lines.deep_view().skip(0int) =~= lines.deep_view());
            }
            while i < lines.len()
                invariant
                    i <= lines@.len(),
                    pat@ == "Serial Number"@,
                    spec_serial_macos(lines.deep_view()) == spec_serial_macos(
                        lines.deep_view().skip(i as int),
                    ),
                decreases lines.len() - i,
            {
                let ghost dl = lines.deep_view();
                proof {
                    assert(dl.skip(i as int)[0] == dl[i as int]);
                    assert(lines@[i as int].deep_view() == dl[i as int]);
                    assert(lines@[i as int].deep_view() =~= lines@[i as int]@);
                }
                if contains(&lines[i], &pat) {
                    let pieces = split_char(&lines[i], ':');
                    proof {
                        assert(pieces.deep_view() == spec_split_char(lines@[i as int]@, ':'));
                    }
                    if pieces.len() > 1 {
                        proof {
                            assert(pieces@[1].deep_view() == pieces.deep_view()[1]);
                            assert(pieces@[1].deep_view() =~= pieces@[1]@);
                        }
                        let t = trim(&pieces[1]);
                        if t.len() > 0 {
                            return Some(string_of(&t));
                        }
                    }
                }
                proof {
                    assert(dl.skip(i as int).skip(1) =~= dl.skip(i + 1));
                }
                i = i + 1;
            }
            proof {
                assert(lines.deep_view().skip(i as int).len() == 0);
            }
            None
        },
        Platform::Linux => {
            let t = trim(&v);
            if t.len() > 0 {
                Some(string_of(&t))
            } else {
                None
            }
        },
    }
}

/// A serial, wherever it comes from, is well formed: every yielded
/// value is nonempty and carries no leading or trailing whitespace —
/// failures (missing tool, empty or placeholder value) yield absent
/// instead.
pub proof fn lemma_serial_well_formed(p: Platform, source: Seq<char>)
    ensures
        spec_serial(p, source) matches Some(v) ==> v.len() > 0 && !crate::text::is_space(v[0])
            && !crate::text::is_space(v[v.len() - 1]),
{
    match p {
        Platform::Windows => {
            if spec_lines(source).len() > 0 {
                lemma_serial_windows_well_formed(spec_lines(source).skip(1));
            }
        },
        Platform::MacOs => {
            lemma_serial_macos_well_formed(spec_lines(source));
        },
        Platform::Linux => {
            crate::text::lemma_trim_no_edge_spaces(source);
        },
    }
}

proof fn lemma_serial_windows_well_formed(lines: Seq<Seq<char>>)
    ensures
        spec_serial_windows(lines) matches Some(v) ==> v.len() > 0 && !crate::text::is_space(
            v[0],
        ) && !crate::text::is_space(v[v.len() - 1]),
    decreases lines.len(),
{
    if lines.len() > 0 {
        if spec_trim(lines[0]).len() > 0 && spec_trim(lines[0]) != "SerialNumber"@ {
            crate::text::lemma_trim_no_edge_spaces(lines[0]);
        } else {
            lemma_serial_windows_well_formed(lines.skip(1));
        }
    }
}

proof fn lemma_serial_macos_well_formed(lines: Seq<Seq<char>>)
    ensures
        spec_serial_macos(lines) matches Some(v) ==> v.len() > 0 && !crate::text::is_space(v[0])
            && !crate::text::is_space(v[v.len() - 1]),
    decreases lines.len(),
{
    if lines.len() > 0 {
        if spec_contains(lines[0], "Serial Number"@) && spec_split_char(lines[0], ':').len() > 1
            && spec_trim(spec_split_char(lines[0], ':')[1]).len() > 0 {
            crate::text::lemma_trim_no_edge_spaces(spec_split_char(lines[0], ':')[1]);
        } else {
            lemma_serial_macos_well_formed(lines.skip(1));
        }
    }
}

/// Character-for-character equality of two vectors.
fn eq_chars(a: &Vec<char>, b: &Vec<char>) -> (r: bool)
    ensures
        r == (a@ == b@),
{
    if a.len() != b.len() {
        return false;
    }
    let mut i: usize = 0;
    while i < a.len()
        invariant
            0 <= i <= a@.len(),
            a@.len() == b@.len(),
            forall|m: int| 0 <= m < i ==> a@[m] == b@[m],
        decreases a.len() - i,
    {
        if a[i] != b[i] {
            return false;
        }
        i = i + 1;
    }
    proof {
        assert(a@ =~= b@);
    }
    true
}


// ---------------------------------------------------------------------
// Primary interface address
// ---------------------------------------------------------------------

/// One network interface as the embedding program found it: the
/// interface's name and the raw content of its address record.
#[derive(Debug)]
pub struct NetInterface {
    pub name: String,
    pub address: String,
}

/// Mathematical model of a [`NetInterface`].
#[verifier::ext_equal]
pub struct SpecNetInterface {
    pub name: Seq<char>,
    pub address: Seq<char>,
}

impl View for NetInterface {
    type V = SpecNetInterface;

    open spec fn view(&self) -> SpecNetInterface {
        SpecNetInterface { name: self.name@, address: self.address@ }
    }
}

/// Whether an address read from a listing's text qualifies as primary:
/// nonempty and not the all-zero address (in either the colon or the
/// dash spelling).
pub open spec fn spec_mac_usable(f: Seq<char>) -> bool {
    &&& f.len() > 0
    &&& f != "00:00:00:00:00:00"@
    &&& f != "00-00-00-00-00-00"@
}

/// What the Windows interface listing yields: on each line, the first
/// comma-separated field with its quotes stripped; the first such field
/// that is nonempty and not the all-zero address is the primary one.
pub open spec fn spec_mac_windows(lines: Seq<Seq<char>>) -> Option<Seq<char>>
    decreases lines.len(),
{
    if lines.len() == 0 {
        None
    } else if spec_mac_usable(spec_trim_matching(spec_split_char(lines[0], ',')[0], '"')) {
        Some(spec_trim_matching(spec_split_char(lines[0], ',')[0], '"'))
    } else {
        spec_mac_windows(lines.skip(1))
    }
}

/// What the Mac interface query yields: on the first line that mentions
/// `ether`, has at least two whitespace-separated fields, and whose
/// second field is not the all-zero address, that second field.
pub open spec fn spec_mac_macos(lines: Seq<Seq<char>>) -> Option<Seq<char>>
    decreases lines.len(),
{
    if lines.len() == 0 {
        None
    } else if spec_contains(lines[0], "ether"@) && spec_split_ws(lines[0]).len() >= 2
        && spec_split_ws(lines[0])[1] != "00:00:00:00:00:00"@ {
        Some(spec_split_ws(lines[0])[1])
    } else {
        spec_mac_macos(lines.skip(1))
    }
}

/// Whether an interface's address is the primary one: the interface is
/// not a loopback (name prefixed `lo`), and its trimmed address is
/// neither empty nor the all-zero address.
pub open spec fn spec_mac_acceptable(e: SpecNetInterface) -> bool {
    &&& !spec_starts_with(e.name, "lo"@)
    &&& spec_trim(e.address).len() > 0
    &&& spec_trim(e.address) != "00:00:00:00:00:00"@
}

/// The first acceptable interface's trimmed address.
pub open spec fn spec_select_mac(es: Seq<SpecNetInterface>) -> Option<Seq<char>>
    decreases es.len(),
{
    if es.len() == 0 {
        None
    } else if spec_mac_acceptable(es[0]) {
        Some(spec_trim(es[0].address))
    } else {
        spec_select_mac(es.skip(1))
    }
}

/// Extracts the primary interface address from a platform's listing
/// text, exactly as [`spec_mac_windows`] and [`spec_mac_macos`] say.
/// The Linux path reads interface records instead: see
/// [`select_primary_mac`]; here it yields nothing.
#[verifier::loop_isolation(false)]
pub fn get_primary_mac(p: Platform, source: &str) -> (r: Option<String>)
    ensures
        r.deep_view() == match p {
            Platform::Windows => spec_mac_windows(spec_lines(source@)),
            Platform::MacOs => spec_mac_macos(spec_lines(source@)),
            Platform::Linux => None::<Seq<char>>,
        },
{
    let v = chars_of(source);
    match p {
        Platform::Windows => {
            let lines = split_lines(&v);
            let zero_colon = chars_of("00:00:00:00:00:00");
            let zero_dash = chars_of("00-00-00-00-00-00");
            let mut i: usize = 0;
            proof {
                assert(lines.deep_view().skip(0int) =~= lines.deep_view());
            }
            while i < lines.len()
                invariant
                    i <= lines@.len(),
                    spec_mac_windows(lines.deep_view()) == spec_mac_windows(
                        lines.deep_view().skip(i as int),
                    ),
                decreases lines.len() - i,
            {
                let ghost dl = lines.deep_view();
                proof {
                    assert(dl.skip(i as int)[0] == dl[i as int]);
                    assert(lines@[i as int].deep_view() == dl[i as int]);
                    assert(lines@[i as int].deep_view() =~= lines@[i as int]@);
                }
                let fields = split_char(&lines[i], ',');
                proof {
                    assert(fields.deep_view().len() >= 1);
                    assert(fields@[0].deep_view() == fields.deep_view()[0]);
                    assert(fields@[0].deep_view() =~= fields@[0]@);
                }
                let field = trim_matching(&fields[0], '"');
                if field.len() > 0 && !eq_chars(&field, &zero_colon) && !eq_chars(
                    &field,
                    &zero_dash,
                ) {
                    return Some(string_of(&field));
                }
                proof {
                    assert(dl.skip(i as int).skip(1) =~= dl.skip(i + 1));
                }
                i = i + 1;
            }
            proof {
                assert(lines.deep_view().skip(i as int).len() == 0);
            }
            None
        },
        Platform::MacOs => {
            let lines = split_lines(&v);
            let pat = chars_of("ether");
            let zero_colon = chars_of("00:00:00:00:00:00");
            let mut i: usize = 0;
            proof {
                assert(lines.deep_view().skip(0int) =~= lines.deep_view());
            }
            while i < lines.len()
                invariant
                    i <= lines@.len(),
                    spec_mac_macos(lines.deep_view()) == spec_mac_macos(
                        lines.deep_view().skip(i as int),
                    ),
                decreases lines.len() - i,
            {
                let ghost dl = lines.deep_view();
                proof {
                    assert(dl.skip(i as int)[0] == dl[i as int]);
                    assert(lines@[i as int].deep_view() == dl[i as int]);
                    assert(lines@[i as int].deep_view() =~= lines@[i as int]@);
                }
                if contains(&lines[i], &pat) {
                    let parts = split_whitespace(&lines[i]);
                    if parts.len() >= 2 {
                        proof {
                            assert(parts@[1].deep_view() == parts.deep_view()[1]);
                            assert(parts@[1].deep_view() =~= parts@[1]@);
                        }
                        if !eq_chars(&parts[1], &zero_colon) {
                            return Some(string_of(&parts[1]));
                        }
                    }
                }
                proof {
                    assert(dl.skip(i as int).skip(1) =~= dl.skip(i + 1));
                }
                i = i + 1;
            }
            proof {
                assert(lines.deep_view().skip(i as int).len() == 0);
            }
            None
        },
        Platform::Linux => None,
    }
}

/// Picks the primary interface address from the interface records the
/// embedding program read, exactly as [`spec_select_mac`] says: the
/// first non-loopback interface with a nonempty, non-all-zero address.
#[verifier::loop_isolation(false)]
pub fn select_primary_mac(entries: &Vec<NetInterface>) -> (r: Option<String>)
    ensures
        r.deep_view() == spec_select_mac(entries@.map_values(|e: NetInterface| e@)),
{
    let ghost es = entries@.map_values(|e: NetInterface| e@);
    let lo = chars_of("lo");
    let zero = chars_of("00:00:00:00:00:00");
    let mut i: usize = 0;
    proof {
        assert(es.skip(0int) =~= es);
    }
    while i < entries.len()
        invariant
            i <= entries@.len(),
            spec_select_mac(es) == spec_select_mac(es.skip(i as int)),
        decreases entries.len() - i,
    {
        proof {
            assert(es.skip(i as int)[0] == es[i as int]);
            assert(es[i as int] == entries@[i as int]@);
        }
        let name = chars_of(entries[i].name.as_str());
        let addr = chars_of(entries[i].address.as_str());
        let t = trim(&addr);
        if !starts_with(&name, &lo) && t.len() > 0 && !eq_chars(&t, &zero) {
            return Some(string_of(&t));
        }
        proof {
            assert(es.skip(i as int).skip(1) =~= es.skip(i + 1));
        }
        i = i + 1;
    }
    proof {
        assert(es.skip(i as int).len() == 0);
    }
    None
}

// ---------------------------------------------------------------------
// Co-installed management agent
// ---------------------------------------------------------------------

/// The `deviceUID` string held by a management agent's JSON state file,
/// a function of the file's text alone.
pub uninterp spec fn device_uid_of(s: Seq<char>) -> Option<Seq<char>>;

/// Relies on `serde_json::from_str` for `serde_json::Value`, and on
/// `Value::get` and `Value::as_str`: yields the `deviceUID` string of
/// the JSON text, absent when the text is no JSON object or holds no
/// such string.
#[verifier::external_body]
fn json_device_uid(content: &str) -> (r: Option<String>)
    ensures
        r.deep_view() == device_uid_of(content@),
{
    match serde_json::from_str::<serde_json::Value>(content) {
        Ok(json) => json.get("deviceUID").and_then(|u| u.as_str()).map(|s| s.to_string()),
        Err(_) => None,
    }
}

/// What counts as a usable agent identifier: the extracted value,
/// trimmed, and only when nonempty.
pub open spec fn spec_select_rmm_id(uid: Option<Seq<char>>) -> Option<Seq<char>> {
    match uid {
        Option::None => None,
        Option::Some(u) => if spec_trim(u).len() > 0 {
            Some(spec_trim(u))
        } else {
            None
        },
    }
}

/// Trims an extracted agent identifier and drops an empty one, exactly
/// as [`spec_select_rmm_id`] says.
pub fn select_rmm_id(uid: Option<String>) -> (r: Option<String>)
    ensures
        r.deep_view() == spec_select_rmm_id(uid.deep_view()),
{
    match uid {
        Option::Some(u) => {
            let v = chars_of(u.as_str());
            let t = trim(&v);
            if t.len() > 0 {
                Some(string_of(&t))
            } else {
                None
            }
        },
        Option::None => None,
    }
}

/// Detects the co-installed management agent's device identifier in its
/// state file's text: the `deviceUID` string, trimmed, when nonempty.
pub fn get_rmm_device_id(content: &str) -> (r: Option<String>)
    ensures
        r.deep_view() == spec_select_rmm_id(device_uid_of(content@)),
{
    let uid = json_device_uid(content);
    select_rmm_id(uid)
}

// ---------------------------------------------------------------------
// OS-queried values
// ---------------------------------------------------------------------

/// Relies on `whoami::username`: the current user's name; absent when
/// the lookup fails. The value depends on the machine, so nothing more
/// is promised.
#[verifier::external_body]
pub fn get_username() -> (r: Option<String>) {
    whoami::username().ok()
}

/// Relies on `local_ip_address::local_ip`: the machine's local IP
/// address, rendered as text; absent when the lookup fails. The value
/// depends on the machine, so nothing more is promised.
#[verifier::external_body]
pub fn get_local_ip() -> (r: Option<String>) {
    match local_ip_address::local_ip() {
        Ok(ip) => Some(ip.to_string()),
        Err(_) => None,
    }
}

} // verus!
