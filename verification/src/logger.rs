//! Size-bounded, rotation-safe append log.
//!
//! Every component writes diagnostics through one log. A write appends a
//! single formatted line to the active file, after first rotating when
//! the active file has grown past the size threshold: generations shift
//! up by one, the generation past the cap is dropped, and the active
//! file starts over with just the new line. [`LogStore`] is the verified
//! model of the log directory for one agent version; the embedding
//! program mirrors its steps on the real files, under one process-wide
//! lock so that the rotate-and-write sequence is atomic against other
//! writers.

use vstd::prelude::*;
use crate::text::{chars_of, string_of, push_chars};
use crate::settings::spec_config_dir;
use crate::Platform;

verus! {

/// Size threshold of the active file, in content units: a write that
/// finds the active file larger than this rotates first.
pub const MAX_LOG_SIZE_BYTES: u64 = 10 * 1024 * 1024;

/// Number of rotated generations kept; the oldest beyond this is
/// dropped on rotation.
pub const MAX_ROTATED_FILES: usize = 5;

/// Severity of one log line.
#[derive(Clone, Copy, PartialEq, Eq, Structural, Debug)]
pub enum LogLevel {
    Info,
    Warn,
    Error,
}

/// The level's tag as it appears inside a log line.
pub open spec fn spec_level_str(l: LogLevel) -> Seq<char> {
    match l {
        LogLevel::Info => "INFO"@,
        LogLevel::Warn => "WARN"@,
        LogLevel::Error => "ERROR"@,
    }
}

/// ASCII upper case of one character.
pub open spec fn upcase(c: char) -> char {
    if 97 <= c as u32 <= 122 {
        ((c as u32 - 32) as u8) as char
    } else {
        c
    }
}

/// Equality up to ASCII case.
pub open spec fn eq_ignore_case(s: Seq<char>, t: Seq<char>) -> bool {
    s.map_values(|c: char| upcase(c)) == t.map_values(|c: char| upcase(c))
}

/// Which level a tag string names: `WARN` and `ERROR` up to ASCII case;
/// anything else is `Info`.
pub open spec fn spec_level_from(s: Seq<char>) -> LogLevel {
    if eq_ignore_case(s, "WARN"@) {
        LogLevel::Warn
    } else if eq_ignore_case(s, "ERROR"@) {
        LogLevel::Error
    } else {
        LogLevel::Info
    }
}

impl LogLevel {
    /// The tag written inside a log line.
    pub fn as_str(&self) -> (r: &'static str)
        ensures
            r@ == spec_level_str(*self),
    {
        match self {
            LogLevel::Info => "INFO",
            LogLevel::Warn => "WARN",
            LogLevel::Error => "ERROR",
        }
    }
}

/// Executable mirror of [`upcase`].
fn upcase_char(c: char) -> (r: char)
    ensures
        r == upcase(c),
{
    let u = c as u32;
    if 97 <= u && u <= 122 {
        ((u - 32) as u8) as char
    } else {
        c
    }
}

/// Compares two character vectors up to ASCII case.
fn eq_ignore_case_exec(a: &Vec<char>, b: &Vec<char>) -> (r: bool)
    ensures
        r == eq_ignore_case(a@, b@),
{
    if a.len() != b.len() {
        assert(a@.map_values(|c: char| upcase(c)).len() != b@.map_values(
            |c: char| upcase(c),
        ).len());
        return false;
    }
    let mut i: usize = 0;
    while i < a.len()
        invariant
            0 <= i <= a.len(),
            a@.len() == b@.len(),
            forall|k: int| 0 <= k < i ==> upcase(a@[k]) == upcase(b@[k]),
        decreases a.len() - i,
    {
        if upcase_char(a[i]) != upcase_char(b[i]) {
            assert(a@.map_values(|c: char| upcase(c))[i as int] != b@.map_values(
                |c: char| upcase(c),
            )[i as int]);
            return false;
        }
        i = i + 1;
    }
    proof {
        assert(a@.map_values(|c: char| upcase(c)) =~= b@.map_values(|c: char| upcase(c)));
    }
    true
}

impl From<String> for LogLevel {
    /// Parses a level tag leniently, as [`spec_level_from`] says.
    fn from(s: String) -> (r: LogLevel) {
        let v = chars_of(s.as_str());
        let warn = chars_of("WARN");
        let error = chars_of("ERROR");
        if eq_ignore_case_exec(&v, &warn) {
            LogLevel::Warn
        } else if eq_ignore_case_exec(&v, &error) {
            LogLevel::Error
        } else {
            LogLevel::Info
        }
    }
}

impl vstd::std_specs::convert::FromSpecImpl<String> for LogLevel {
    open spec fn obeys_from_spec() -> bool {
        true
    }

    open spec fn from_spec(s: String) -> LogLevel {
        spec_level_from(s@)
    }
}

// ---------------------------------------------------------------------
// Line format and file names
// ---------------------------------------------------------------------

/// One log line: `[timestamp][LEVEL] message` and a newline.
pub open spec fn spec_log_line(ts: Seq<char>, level: LogLevel, msg: Seq<char>) -> Seq<char> {
    seq!['['] + ts + seq![']', '['] + spec_level_str(level) + seq![']', ' '] + msg + seq!['\n']
}

/// Formats one log line exactly as [`spec_log_line`] says.
pub fn format_log_line(ts: &str, level: LogLevel, msg: &str) -> (r: String)
    ensures
        r@ == spec_log_line(ts@, level, msg@),
{
    let mut out: Vec<char> = Vec::new();
    out.push('[');
    push_chars(&mut out, ts);
    out.push(']');
    out.push('[');
    push_chars(&mut out, level.as_str());
    out.push(']');
    out.push(' ');
    push_chars(&mut out, msg);
    out.push('\n');
    proof {
        assert(out@ =~= spec_log_line(ts@, level, msg@));
    }
    string_of(&out)
}

/// Directory that holds the log files.
pub fn get_logs_dir(p: Platform) -> (r: String)
    ensures
        r@ == spec_config_dir(p) + crate::settings::spec_path_sep(p) + "logs"@,
{
    let mut s = crate::settings::get_config_dir(p);
    match p {
        Platform::Windows => vstd::string::StringExecFns::append(&mut s, "\\"),
        _ => vstd::string::StringExecFns::append(&mut s, "/"),
    }
    vstd::string::StringExecFns::append(&mut s, "logs");
    s
}

/// Name of the active log file for one agent version; upgrades start a
/// fresh primary file while older versions' logs remain as history.
pub fn get_log_filename(version: &str) -> (r: String)
    ensures
        r@ == "runtime_"@ + version@ + ".log"@,
{
    let mut out: Vec<char> = Vec::new();
    push_chars(&mut out, "runtime_");
    push_chars(&mut out, version);
    push_chars(&mut out, ".log");
    proof {
        assert(out@ =~= "runtime_"@ + version@ + ".log"@);
    }
    string_of(&out)
}

/// Full path of the active log file.
pub fn get_log_path(p: Platform, version: &str) -> (r: String)
    ensures
        r@ == spec_config_dir(p) + crate::settings::spec_path_sep(p) + "logs"@
            + crate::settings::spec_path_sep(p) + "runtime_"@ + version@ + ".log"@,
{
    let dir = get_logs_dir(p);
    let name = get_log_filename(version);
    let mut out: Vec<char> = Vec::new();
    push_chars(&mut out, dir.as_str());
    match p {
        Platform::Windows => push_chars(&mut out, "\\"),
        _ => push_chars(&mut out, "/"),
    }
    push_chars(&mut out, name.as_str());
    proof {
        assert(out@ =~= spec_config_dir(p) + crate::settings::spec_path_sep(p) + "logs"@
            + crate::settings::spec_path_sep(p) + "runtime_"@ + version@ + ".log"@);
    }
    string_of(&out)
}

/// The digit suffix of a rotated generation's file name.
pub open spec fn spec_generation_digit(n: int) -> char
    recommends
        1 <= n <= 5,
{
    if n == 1 { '1' } else if n == 2 { '2' } else if n == 3 { '3' } else if n == 4 { '4' }
    else { '5' }
}

/// Name of rotated generation `n`: the active file's name with a dot
/// and the generation number.
pub fn rotated_log_filename(version: &str, n: usize) -> (r: String)
    requires
        1 <= n <= MAX_ROTATED_FILES,
    ensures
        r@ == "runtime_"@ + version@ + ".log"@ + seq!['.'] + seq![spec_generation_digit(n as int)],
{
    let base = get_log_filename(version);
    let mut out: Vec<char> = Vec::new();
    push_chars(&mut out, base.as_str());
    out.push('.');
    let d = if n == 1 { '1' } else if n == 2 { '2' } else if n == 3 { '3' } else if n == 4 {
        '4'
    } else {
        '5'
    };
    out.push(d);
    proof {
        assert(out@ =~= "runtime_"@ + version@ + ".log"@ + seq!['.'] + seq![
            spec_generation_digit(n as int)
        ]);
    }
    string_of(&out)
}

// ---------------------------------------------------------------------
// The store
// ---------------------------------------------------------------------

/// Total length of a file's lines.
pub open spec fn total_len(lines: Seq<Seq<char>>) -> int
    decreases lines.len(),
{
    if lines.len() == 0 {
        0
    } else {
        lines[0].len() + total_len(lines.skip(1))
    }
}

/// Whether a write must rotate first: the active file has grown past
/// the threshold.
pub open spec fn spec_should_rotate(active: Seq<Seq<char>>) -> bool {
    total_len(active) > MAX_LOG_SIZE_BYTES
}

/// What rotation does to the generations: the active file becomes
/// generation one, every kept generation shifts up by one, and at most
/// [`MAX_ROTATED_FILES`] remain — the oldest beyond the cap is dropped.
pub open spec fn spec_rotate(
    rotated: Seq<Seq<Seq<char>>>,
    active: Seq<Seq<char>>,
) -> Seq<Seq<Seq<char>>> {
    let shifted = seq![active] + rotated;
    if shifted.len() <= MAX_ROTATED_FILES {
        shifted
    } else {
        shifted.take(MAX_ROTATED_FILES as int)
    }
}

/// The threshold check on a size the embedding program measured on the
/// real active file.
pub fn should_rotate_size(size: u64) -> (r: bool)
    ensures
        r == (size > MAX_LOG_SIZE_BYTES),
{
    size > MAX_LOG_SIZE_BYTES
}

/// In-memory model of the log directory for one agent version: the
/// active file's lines, their total length, and the rotated generations
/// (`rotated[0]` is generation one, the most recent).
pub struct LogStore {
    pub active: Vec<String>,
    pub active_len: u64,
    pub rotated: Vec<Vec<String>>,
}

proof fn lemma_total_len_nonneg(lines: Seq<Seq<char>>)
    ensures
        total_len(lines) >= 0,
    decreases lines.len(),
{
    if lines.len() > 0 {
        lemma_total_len_nonneg(lines.skip(1));
    }
}

proof fn lemma_total_len_snoc(lines: Seq<Seq<char>>, line: Seq<char>)
    ensures
        total_len(lines.push(line)) == total_len(lines) + line.len(),
    decreases lines.len(),
{
    if lines.len() == 0 {
        assert(lines.push(line)[0] == line);
        assert(lines.push(line).skip(1) =~= Seq::<Seq<char>>::empty());
        assert(total_len(lines.push(line)) == line.len() + total_len(
            Seq::<Seq<char>>::empty(),
        ));
    } else {
        assert(lines.push(line)[0] == lines[0]);
        assert(lines.push(line).skip(1) =~= lines.skip(1).push(line));
        lemma_total_len_snoc(lines.skip(1), line);
    }
}

impl LogStore {
    /// The store's invariant: the cached length is the lines' total
    /// length, and the generation cap holds.
    pub open spec fn wf(&self) -> bool {
        &&& self.active_len as int == total_len(self.active.deep_view())
        &&& self.rotated@.len() <= MAX_ROTATED_FILES
    }

    /// A fresh store: empty active file, no generations.
    pub fn new() -> (r: LogStore)
        ensures
            r.wf(),
            r.active.deep_view() =~= Seq::<Seq<char>>::empty(),
            r.rotated.deep_view() =~= Seq::<Seq<Seq<char>>>::empty(),
    {
        let r = LogStore { active: Vec::new(), active_len: 0, rotated: Vec::new() };
        proof {
            assert(r.active.deep_view() =~= Seq::<Seq<char>>::empty());
            assert(r.rotated.deep_view() =~= Seq::<Seq<Seq<char>>>::empty());
        }
        r
    }

    /// Appends one formatted line, rotating first when the active file
    /// is over the threshold. Exactly one line is added per call; on
    /// rotation the new active file holds only that line and the old
    /// active file becomes generation one.
    pub fn write(&mut self, ts: &str, level: LogLevel, msg: &str)
        requires
            old(self).wf(),
            ts@.len() + msg@.len() + 16 + MAX_LOG_SIZE_BYTES <= u64::MAX,
        ensures
            final(self).wf(),
            ({
                let line = spec_log_line(ts@, level, msg@);
                if spec_should_rotate(old(self).active.deep_view()) {
                    final(self).active.deep_view() =~= seq![line] && final(self).rotated.deep_view()
                        =~= spec_rotate(
                        old(self).rotated.deep_view(),
                        old(self).active.deep_view(),
                    )
                } else {
                    final(self).active.deep_view() =~= old(self).active.deep_view().push(line)
                        && final(self).rotated.deep_view() =~= old(self).rotated.deep_view()
                }
            }),
    {
        let line = format_log_line(ts, level, msg);
        proof {
            reveal_strlit("INFO");
            reveal_strlit("WARN");
            reveal_strlit("ERROR");
            assert(spec_level_str(level).len() <= 5);
        }
        let line_len = exec_line_len(&line);
        if self.active_len > MAX_LOG_SIZE_BYTES {
            let mut old_active: Vec<String> = Vec::new();
            core::mem::swap(&mut self.active, &mut old_active);
            self.rotated.insert(0, old_active);
            if self.rotated.len() > MAX_ROTATED_FILES {
                self.rotated.truncate(MAX_ROTATED_FILES);
            }
            self.active_len = 0;
            proof {
                assert(self.rotated.deep_view() =~= spec_rotate(
                    old(self).rotated.deep_view(),
                    old(self).active.deep_view(),
                ));
                assert(self.active.deep_view() =~= Seq::<Seq<char>>::empty());
            }
        }
        proof {
            lemma_total_len_nonneg(self.active.deep_view());
            lemma_total_len_snoc(self.active.deep_view(), line@);
            assert(self.active.deep_view().push(line@) =~= self.active.deep_view().push(
                spec_log_line(ts@, level, msg@),
            ));
        }
        let new_len = self.active_len + line_len;
        self.active.push(line);
        self.active_len = new_len;
        proof {
            assert(self.active.deep_view() =~= old(self).active.deep_view().push(
                spec_log_line(ts@, level, msg@),
            ) || self.active.deep_view() =~= seq![spec_log_line(ts@, level, msg@)]);
        }
    }
}

/// Length of one line in characters; it fits a machine word.
fn exec_line_len(line: &String) -> (r: u64)
    ensures
        r as int == line@.len(),
{
    let v = chars_of(line.as_str());
    v.len() as u64
}

// ---------------------------------------------------------------------
// Laws
// ---------------------------------------------------------------------

/// The generation cap: rotation never yields more than
/// [`MAX_ROTATED_FILES`] generations, the just-rotated active file is
/// generation one, every kept generation shifts up by exactly one, and
/// nothing is duplicated — the oldest is dropped when the cap is hit.
pub proof fn lemma_generation_cap(rotated: Seq<Seq<Seq<char>>>, active: Seq<Seq<char>>)
    ensures
        spec_rotate(rotated, active).len() <= MAX_ROTATED_FILES as int,
        spec_rotate(rotated, active).len() == vstd::math::min(
            rotated.len() + 1int,
            MAX_ROTATED_FILES as int,
        ),
        spec_rotate(rotated, active)[0] == active,
        forall|i: int|
            1 <= i < spec_rotate(rotated, active).len() ==> spec_rotate(rotated, active)[i]
                == rotated[i - 1],
{
}

} // verus!
