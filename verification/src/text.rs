//! Character-level text utilities.
//!
//! All record encoding and probe-output parsing in this crate works on
//! `Vec<char>` so that contracts can speak of `Seq<char>` directly. The
//! two conversions to and from `String` are the only trusted items here.

use vstd::prelude::*;

verus! {

/// Relies on `str::chars` and `Iterator::collect`: the vector holds the
/// characters of the string, in order.
#[verifier::external_body]
pub fn chars_of(s: &str) -> (r: Vec<char>)
    ensures
        r@ == s@,
{
    s.chars().collect()
}

/// Relies on `Iterator::collect` for `String`: the string holds exactly
/// the characters of the vector, in order.
#[verifier::external_body]
pub fn string_of(v: &Vec<char>) -> (r: String)
    ensures
        r@ == v@,
{
    v.iter().collect()
}

/// Appends the characters of `lit` to `out`.
pub fn push_chars(out: &mut Vec<char>, lit: &str)
    ensures
        final(out)@ == old(out)@ + lit@,
{
    let mut c = chars_of(lit);
    out.append(&mut c);
}

/// ASCII whitespace as the probe-output parsers understand it.
pub open spec fn is_space(c: char) -> bool {
    c == ' ' || c == '\t' || c == '\n' || c == '\r'
}

/// Executable mirror of [`is_space`].
pub fn is_space_char(c: char) -> (r: bool)
    ensures
        r == is_space(c),
{
    c == ' ' || c == '\t' || c == '\n' || c == '\r'
}

/// Number of leading whitespace characters of `s`.
pub open spec fn leading_spaces(s: Seq<char>) -> int
    decreases s.len(),
{
    if s.len() == 0 || !is_space(s[0]) {
        0
    } else {
        1 + leading_spaces(s.skip(1))
    }
}

/// Number of trailing whitespace characters of `s`.
pub open spec fn trailing_spaces(s: Seq<char>) -> int
    decreases s.len(),
{
    if s.len() == 0 || !is_space(s[s.len() - 1]) {
        0
    } else {
        1 + trailing_spaces(s.take(s.len() - 1))
    }
}

/// `s` with leading and trailing whitespace removed.
pub open spec fn spec_trim(s: Seq<char>) -> Seq<char> {
    let t = s.skip(leading_spaces(s));
    t.take(t.len() - trailing_spaces(t))
}

proof fn lemma_leading_spaces_bound(s: Seq<char>)
    ensures
        0 <= leading_spaces(s) <= s.len(),
        forall|i: int| 0 <= i < leading_spaces(s) ==> is_space(s[i]),
        leading_spaces(s) < s.len() ==> !is_space(s[leading_spaces(s)]),
    decreases s.len(),
{
    if s.len() != 0 && is_space(s[0]) {
        lemma_leading_spaces_bound(s.skip(1));
        assert forall|i: int| 0 <= i < leading_spaces(s) implies is_space(s[i]) by {
            if i > 0 {
                assert(s.skip(1)[i - 1] == s[i]);
            }
        }
        if leading_spaces(s) < s.len() {
            assert(s.skip(1)[leading_spaces(s) - 1] == s[leading_spaces(s)]);
        }
    }
}

proof fn lemma_trailing_spaces_bound(s: Seq<char>)
    ensures
        0 <= trailing_spaces(s) <= s.len(),
        forall|i: int| s.len() - trailing_spaces(s) <= i < s.len() ==> is_space(s[i]),
        trailing_spaces(s) < s.len() ==> !is_space(s[s.len() - trailing_spaces(s) - 1]),
    decreases s.len(),
{
    if s.len() != 0 && is_space(s[s.len() - 1]) {
        let t = s.take(s.len() - 1);
        lemma_trailing_spaces_bound(t);
        assert forall|i: int| s.len() - trailing_spaces(s) <= i < s.len() implies is_space(
            s[i],
        ) by {
            if i < s.len() - 1 {
                assert(t[i] == s[i]);
            }
        }
    }
}

/// A nonempty trimmed sequence neither starts nor ends with
/// whitespace.
pub proof fn lemma_trim_no_edge_spaces(s: Seq<char>)
    ensures
        spec_trim(s).len() > 0 ==> !is_space(spec_trim(s)[0]),
        spec_trim(s).len() > 0 ==> !is_space(spec_trim(s)[spec_trim(s).len() - 1]),
{
    lemma_leading_spaces_bound(s);
    let t = s.skip(leading_spaces(s));
    lemma_trailing_spaces_bound(t);
    if spec_trim(s).len() > 0 {
        assert(spec_trim(s)[0] == t[0]);
        assert(t[0] == s[leading_spaces(s)]);
        assert(spec_trim(s)[spec_trim(s).len() - 1] == t[t.len() - trailing_spaces(t) - 1]);
    }
}

/// Removes leading and trailing ASCII whitespace, as the platform probes
/// require before an identifier is accepted.
pub fn trim(v: &Vec<char>) -> (r: Vec<char>)
    ensures
        r@ == spec_trim(v@),
{
    let mut start: usize = 0;
    while start < v.len() && is_space_char(v[start])
        invariant
            0 <= start <= v.len(),
            forall|i: int| 0 <= i < start ==> is_space(v@[i]),
        decreases v.len() - start,
    {
        start = start + 1;
    }
    let mut end: usize = v.len();
    while end > start && is_space_char(v[end - 1])
        invariant
            start <= end <= v.len(),
            forall|i: int| 0 <= i < start ==> is_space(v@[i]),
            forall|i: int| end <= i < v.len() ==> is_space(v@[i]),
        decreases end,
    {
        end = end - 1;
    }
    let mut r: Vec<char> = Vec::new();
    let mut i: usize = start;
    while i < end
        invariant
            start <= i <= end <= v.len(),
            r@ == v@.subrange(start as int, i as int),
        decreases end - i,
    {
        r.push(v[i]);
        assert(r@ == v@.subrange(start as int, i + 1));
        i = i + 1;
    }
    proof {
        lemma_trim_window(v@, start as int, end as int);
    }
    r
}

/// A window whose outside is all whitespace and whose edges are not is
/// exactly the trimmed sequence.
proof fn lemma_trim_window(s: Seq<char>, start: int, end: int)
    requires
        0 <= start <= end <= s.len(),
        forall|i: int| 0 <= i < start ==> is_space(s[i]),
        forall|i: int| end <= i < s.len() ==> is_space(s[i]),
        start < end ==> !is_space(s[start]),
        start < end ==> !is_space(s[end - 1]),
        start == end ==> start == s.len(),
    ensures
        spec_trim(s) =~= s.subrange(start, end),
{
    lemma_leading_spaces_bound(s);
    if start < end {
        lemma_spaces_prefix(s, start);
        let t = s.skip(start);
        lemma_trailing_spaces_bound(t);
        lemma_spaces_suffix(t, end - start);
    } else {
        lemma_spaces_prefix(s, start);
        let t = s.skip(s.len() as int);
        assert(t.len() == 0);
    }
}

/// If the first `k` characters are whitespace and the one after (if any)
/// is not, `leading_spaces` is exactly `k`.
proof fn lemma_spaces_prefix(s: Seq<char>, k: int)
    requires
        0 <= k <= s.len(),
        forall|i: int| 0 <= i < k ==> is_space(s[i]),
        k < s.len() ==> !is_space(s[k]),
    ensures
        leading_spaces(s) == k,
    decreases k,
{
    if k > 0 {
        assert(forall|i: int| 0 <= i < k - 1 ==> s.skip(1)[i] == s[i + 1]);
        lemma_spaces_prefix(s.skip(1), k - 1);
    }
}

/// If the last `len - k` characters are whitespace and the one before
/// (if any) is not, `trailing_spaces` is exactly `len - k`.
proof fn lemma_spaces_suffix(s: Seq<char>, k: int)
    requires
        0 <= k <= s.len(),
        forall|i: int| k <= i < s.len() ==> is_space(s[i]),
        k > 0 ==> !is_space(s[k - 1]),
    ensures
        trailing_spaces(s) == s.len() - k,
    decreases s.len(),
{
    if s.len() > k {
        lemma_spaces_suffix(s.take(s.len() - 1), k);
    }
}


// ---------------------------------------------------------------------
// Searching and splitting
// ---------------------------------------------------------------------

/// Offset of the first occurrence of `c`; the sequence's length when
/// `c` does not occur.
pub open spec fn find_char(s: Seq<char>, c: char) -> nat
    decreases s.len(),
{
    if s.len() == 0 {
        0
    } else if s[0] == c {
        0
    } else {
        1 + find_char(s.skip(1), c)
    }
}

/// A position before which `c` never occurs, and which holds `c` unless
/// it is the end, is where `find_char` points.
pub proof fn lemma_find_char_at(s: Seq<char>, c: char, k: int)
    requires
        0 <= k <= s.len(),
        forall|i: int| 0 <= i < k ==> s[i] != c,
        k < s.len() ==> s[k] == c,
    ensures
        find_char(s, c) == k,
    decreases k,
{
    if k > 0 {
        assert(forall|i: int| 0 <= i < k - 1 ==> s.skip(1)[i] == s[i + 1]);
        lemma_find_char_at(s.skip(1), c, k - 1);
    }
}

/// Finds the first occurrence of `c` at or after `start`; the vector's
/// length when there is none.
pub fn find_from(v: &Vec<char>, start: usize, c: char) -> (r: usize)
    requires
        start <= v.len(),
    ensures
        start <= r <= v.len(),
        r - start == find_char(v@.skip(start as int), c),
        forall|i: int| start <= i < r ==> v@[i] != c,
        r < v.len() ==> v@[r as int] == c,
{
    let mut j = start;
    while j < v.len() && v[j] != c
        invariant
            start <= j <= v.len(),
            forall|i: int| start <= i < j ==> v@[i] != c,
        decreases v.len() - j,
    {
        j = j + 1;
    }
    proof {
        let s = v@.skip(start as int);
        assert(forall|i: int| 0 <= i < j - start ==> s[i] == v@[start + i]);
        lemma_find_char_at(s, c, j - start);
    }
    j
}

/// A line's content with one trailing carriage return removed, as the
/// line splitter strips a `\r\n` ending.
pub open spec fn strip_cr(l: Seq<char>) -> Seq<char> {
    if l.len() > 0 && l[l.len() - 1] == '\r' {
        l.take(l.len() - 1)
    } else {
        l
    }
}

/// The lines of a text: split at `\n`, one trailing `\r` stripped from
/// each line, and no empty line after a final newline.
pub open spec fn spec_lines(s: Seq<char>) -> Seq<Seq<char>>
    decreases s.len(),
{
    if s.len() == 0 {
        Seq::empty()
    } else {
        let k = find_char(s, '\n');
        if k >= s.len() {
            seq![strip_cr(s)]
        } else {
            seq![strip_cr(s.take(k as int))] + spec_lines(s.skip(k + 1int))
        }
    }
}

/// Splits a text into its lines, exactly as [`spec_lines`] says.
pub fn split_lines(v: &Vec<char>) -> (r: Vec<Vec<char>>)
    ensures
        r.deep_view() == spec_lines(v@),
{
    let mut acc: Vec<Vec<char>> = Vec::new();
    let mut i: usize = 0;
    proof {
        assert(v@.skip(0) =~= v@);
        assert(acc.deep_view() =~~= Seq::<Seq<char>>::empty());
        assert(acc.deep_view() + spec_lines(v@) =~~= spec_lines(v@));
    }
    while i < v.len()
        invariant
            i <= v.len(),
            spec_lines(v@) == acc.deep_view() + spec_lines(v@.skip(i as int)),
        decreases v.len() - i,
    {
        let ghost acc0 = acc.deep_view();
        let j = find_from(v, i, '\n');
        let end = if j > i && v[j - 1] == '\r' {
            j - 1
        } else {
            j
        };
        let mut tok: Vec<char> = Vec::new();
        let mut m = i;
        while m < end
            invariant
                i <= m <= end <= v.len(),
                tok@ == v@.subrange(i as int, m as int),
            decreases end - m,
        {
            tok.push(v[m]);
            assert(tok@ == v@.subrange(i as int, m + 1));
            m = m + 1;
        }
        proof {
            let s = v@.skip(i as int);
            assert(s.take(j - i) =~= v@.subrange(i as int, j as int));
            assert(s =~= v@.subrange(i as int, v@.len() as int));
            if j == v.len() {
                assert(strip_cr(s) =~= tok@);
            } else {
                assert(strip_cr(s.take(j - i)) =~= tok@);
                assert(s.skip(j - i + 1) =~= v@.skip(j + 1));
            }
        }
        acc.push(tok);
        proof {
            assert(acc.deep_view() =~~= acc0.push(tok@));
            if j == v.len() {
                assert(spec_lines(v@.skip(i as int)) == seq![tok@]);
                assert(acc0 + seq![tok@] =~~= acc.deep_view());
                assert(v@.skip(v@.len() as int).len() == 0);
                assert(acc.deep_view() + spec_lines(v@.skip(v@.len() as int)) =~~= acc.deep_view());
            } else {
                assert(spec_lines(v@.skip(i as int)) == seq![tok@] + spec_lines(v@.skip(j + 1)));
                assert(acc0 + (seq![tok@] + spec_lines(v@.skip(j + 1))) =~~= acc.deep_view()
                    + spec_lines(v@.skip(j + 1)));
            }
        }
        if j >= v.len() {
            i = v.len();
        } else {
            i = j + 1;
        }
    }
    proof {
        assert(v@.skip(i as int).len() == 0);
        assert(acc.deep_view() + spec_lines(v@.skip(i as int)) =~~= acc.deep_view());
    }
    acc
}

/// Splitting at a separator character, empty pieces kept: a text with
/// no separator is one piece, and each separator ends a piece.
pub open spec fn spec_split_char(s: Seq<char>, sep: char) -> Seq<Seq<char>>
    decreases s.len(),
{
    let k = find_char(s, sep);
    if k >= s.len() {
        seq![s]
    } else {
        seq![s.take(k as int)] + spec_split_char(s.skip(k + 1int), sep)
    }
}

/// Splits at a separator, exactly as [`spec_split_char`] says.
pub fn split_char(v: &Vec<char>, sep: char) -> (r: Vec<Vec<char>>)
    ensures
        r.deep_view() == spec_split_char(v@, sep),
{
    let mut acc: Vec<Vec<char>> = Vec::new();
    let mut i: usize = 0;
    proof {
        assert(v@.skip(0) =~= v@);
        assert(acc.deep_view() =~~= Seq::<Seq<char>>::empty());
        assert(acc.deep_view() + spec_split_char(v@, sep) =~~= spec_split_char(v@, sep));
    }
    loop
        invariant
            i <= v.len(),
            spec_split_char(v@, sep) == acc.deep_view() + spec_split_char(v@.skip(i as int), sep),
        decreases v.len() - i,
    {
        let ghost acc0 = acc.deep_view();
        let j = find_from(v, i, sep);
        let mut tok: Vec<char> = Vec::new();
        let mut m = i;
        while m < j
            invariant
                i <= m <= j <= v.len(),
                tok@ == v@.subrange(i as int, m as int),
            decreases j - m,
        {
            tok.push(v[m]);
            assert(tok@ == v@.subrange(i as int, m + 1));
            m = m + 1;
        }
        proof {
            let s = v@.skip(i as int);
            assert(s.take(j - i) =~= tok@);
            assert(s =~= v@.subrange(i as int, v@.len() as int));
            if j == v.len() {
                assert(s =~= tok@);
            } else {
                assert(s.skip(j - i + 1) =~= v@.skip(j + 1));
            }
        }
        acc.push(tok);
        proof {
            assert(acc.deep_view() =~~= acc0.push(tok@));
            if j == v.len() {
                assert(spec_split_char(v@.skip(i as int), sep) == seq![tok@]);
                assert(acc0 + seq![tok@] =~~= acc.deep_view());
            } else {
                assert(spec_split_char(v@.skip(i as int), sep) == seq![tok@] + spec_split_char(
                    v@.skip(j + 1),
                    sep,
                ));
                assert(acc0 + (seq![tok@] + spec_split_char(v@.skip(j + 1), sep))
                    =~~= acc.deep_view() + spec_split_char(v@.skip(j + 1), sep));
            }
        }
        if j >= v.len() {
            return acc;
        }
        i = j + 1;
    }
}

/// Length of the leading run of non-whitespace characters.
pub open spec fn non_ws_run(s: Seq<char>) -> nat
    decreases s.len(),
{
    if s.len() == 0 || is_space(s[0]) {
        0
    } else {
        1 + non_ws_run(s.skip(1))
    }
}

pub proof fn lemma_non_ws_run_at(s: Seq<char>, k: int)
    requires
        0 <= k <= s.len(),
        forall|i: int| 0 <= i < k ==> !is_space(s[i]),
        k < s.len() ==> is_space(s[k]),
    ensures
        non_ws_run(s) == k,
    decreases k,
{
    if k > 0 {
        assert(forall|i: int| 0 <= i < k - 1 ==> s.skip(1)[i] == s[i + 1]);
        lemma_non_ws_run_at(s.skip(1), k - 1);
    }
}

/// The whitespace-separated words of a text: maximal runs of
/// non-whitespace characters, in order.
pub open spec fn spec_split_ws(s: Seq<char>) -> Seq<Seq<char>>
    decreases s.len(),
{
    if s.len() == 0 {
        Seq::empty()
    } else if is_space(s[0]) {
        spec_split_ws(s.skip(1))
    } else {
        let k = non_ws_run(s);
        if k >= s.len() {
            seq![s]
        } else {
            seq![s.take(k as int)] + spec_split_ws(s.skip(k as int))
        }
    }
}

/// Splits into whitespace-separated words, exactly as [`spec_split_ws`]
/// says.
pub fn split_whitespace(v: &Vec<char>) -> (r: Vec<Vec<char>>)
    ensures
        r.deep_view() == spec_split_ws(v@),
{
    let mut acc: Vec<Vec<char>> = Vec::new();
    let mut i: usize = 0;
    proof {
        assert(v@.skip(0) =~= v@);
        assert(acc.deep_view() =~~= Seq::<Seq<char>>::empty());
        assert(acc.deep_view() + spec_split_ws(v@) =~~= spec_split_ws(v@));
    }
    while i < v.len()
        invariant
            i <= v.len(),
            spec_split_ws(v@) == acc.deep_view() + spec_split_ws(v@.skip(i as int)),
        decreases v.len() - i,
    {
        if is_space_char(v[i]) {
            proof {
                assert(v@.skip(i as int).skip(1) =~= v@.skip(i + 1));
            }
            i = i + 1;
        } else {
            let ghost acc0 = acc.deep_view();
            let mut j = i;
            while j < v.len() && !is_space_char(v[j])
                invariant
                    i <= j <= v.len(),
                    forall|m: int| i <= m < j ==> !is_space(v@[m]),
                decreases v.len() - j,
            {
                j = j + 1;
            }
            let mut tok: Vec<char> = Vec::new();
            let mut m = i;
            while m < j
                invariant
                    i <= m <= j <= v.len(),
                    tok@ == v@.subrange(i as int, m as int),
                decreases j - m,
            {
                tok.push(v[m]);
                assert(tok@ == v@.subrange(i as int, m + 1));
                m = m + 1;
            }
            proof {
                let s = v@.skip(i as int);
                assert(forall|t: int| 0 <= t < j - i ==> s[t] == v@[i + t]);
                lemma_non_ws_run_at(s, j - i);
                assert(s.take(j - i) =~= tok@);
                assert(s =~= v@.subrange(i as int, v@.len() as int));
                if j == v.len() {
                    assert(s =~= tok@);
                } else {
                    assert(s.skip(j - i) =~= v@.skip(j as int));
                }
            }
            acc.push(tok);
            proof {
                assert(acc.deep_view() =~~= acc0.push(tok@));
                if j == v.len() {
                    assert(spec_split_ws(v@.skip(i as int)) == seq![tok@]);
                    assert(acc0 + seq![tok@] =~~= acc.deep_view());
                    assert(v@.skip(v@.len() as int).len() == 0);
                    assert(acc.deep_view() + spec_split_ws(v@.skip(v@.len() as int))
                        =~~= acc.deep_view());
                } else {
                    assert(spec_split_ws(v@.skip(i as int)) == seq![tok@] + spec_split_ws(
                        v@.skip(j as int),
                    ));
                    assert(acc0 + (seq![tok@] + spec_split_ws(v@.skip(j as int)))
                        =~~= acc.deep_view() + spec_split_ws(v@.skip(j as int)));
                }
            }
            i = j;
        }
    }
    proof {
        assert(v@.skip(i as int).len() == 0);
        assert(acc.deep_view() + spec_split_ws(v@.skip(i as int)) =~~= acc.deep_view());
    }
    acc
}

// ---------------------------------------------------------------------
// Substrings
// ---------------------------------------------------------------------

/// Whether `pat` occurs inside `s`.
pub open spec fn spec_contains(s: Seq<char>, pat: Seq<char>) -> bool {
    exists|k: int|
        0 <= k && k + pat.len() <= s.len() && #[trigger] s.subrange(k, k + pat.len()) == pat
}

/// Whether `pat` stands at offset `k` of `v`.
fn matches_at(v: &Vec<char>, k: usize, pat: &Vec<char>) -> (r: bool)
    requires
        k + pat@.len() <= v@.len(),
    ensures
        r == (v@.subrange(k as int, k + pat@.len()) == pat@),
{
    let mut t: usize = 0;
    while t < pat.len()
        invariant
            0 <= t <= pat@.len(),
            k + pat@.len() <= v@.len(),
            forall|m: int| 0 <= m < t ==> v@[k + m] == pat@[m],
        decreases pat.len() - t,
    {
        proof {
            assert(v.len() == v@.len());
            assert(k + t < v@.len());
        }
        if v[k + t] != pat[t] {
            proof {
                assert(v@.subrange(k as int, k + pat@.len())[t as int] == v@[k + t]);
            }
            return false;
        }
        t = t + 1;
    }
    proof {
        assert(v@.subrange(k as int, k + pat@.len()) =~= pat@);
    }
    true
}

/// Whether `pat` occurs inside `v`, exactly as [`spec_contains`] says.
pub fn contains(v: &Vec<char>, pat: &Vec<char>) -> (r: bool)
    ensures
        r == spec_contains(v@, pat@),
{
    if pat.len() > v.len() {
        return false;
    }
    if pat.len() == 0 {
        proof {
            assert(spec_contains(v@, pat@)) by {
                assert(v@.subrange(0int, 0int + pat@.len()) =~= pat@);
            }
        }
        return true;
    }
    let bound = v.len() - pat.len();
    let mut k: usize = 0;
    proof {
        assert(v.len() == v@.len());
    }
    while k <= bound
        invariant
            v@.len() <= usize::MAX,
            1 <= pat@.len() <= v@.len(),
            bound == v@.len() - pat@.len(),
            0 <= k <= bound + 1,
            forall|m: int| 0 <= m < k ==> #[trigger] v@.subrange(m, m + pat@.len()) != pat@,
        decreases bound + 1 - k,
    {
        if matches_at(v, k, pat) {
            proof {
                assert(spec_contains(v@, pat@)) by {
                    assert(0 <= k as int && k as int + pat@.len() <= v@.len() && v@.subrange(
                        k as int,
                        k as int + pat@.len(),
                    ) == pat@);
                }
            }
            return true;
        }
        k = k + 1;
    }
    false
}

/// Whether `pre` is a prefix of `s`.
pub open spec fn spec_starts_with(s: Seq<char>, pre: Seq<char>) -> bool {
    pre.len() <= s.len() && s.take(pre.len() as int) == pre
}

/// Prefix test, exactly as [`spec_starts_with`] says.
pub fn starts_with(v: &Vec<char>, pre: &Vec<char>) -> (r: bool)
    ensures
        r == spec_starts_with(v@, pre@),
{
    if pre.len() > v.len() {
        return false;
    }
    let r = matches_at(v, 0, pre);
    proof {
        assert(v@.subrange(0, pre@.len() as int) =~= v@.take(pre@.len() as int));
    }
    r
}

// ---------------------------------------------------------------------
// Trimming a matched character
// ---------------------------------------------------------------------

/// Number of leading occurrences of `c`.
pub open spec fn leading_matching(s: Seq<char>, c: char) -> int
    decreases s.len(),
{
    if s.len() == 0 || s[0] != c {
        0
    } else {
        1 + leading_matching(s.skip(1), c)
    }
}

/// Number of trailing occurrences of `c`.
pub open spec fn trailing_matching(s: Seq<char>, c: char) -> int
    decreases s.len(),
{
    if s.len() == 0 || s[s.len() - 1] != c {
        0
    } else {
        1 + trailing_matching(s.take(s.len() - 1), c)
    }
}

/// `s` with every leading and trailing `c` removed.
pub open spec fn spec_trim_matching(s: Seq<char>, c: char) -> Seq<char> {
    let t = s.skip(leading_matching(s, c));
    t.take(t.len() - trailing_matching(t, c))
}

proof fn lemma_matching_prefix(s: Seq<char>, c: char, k: int)
    requires
        0 <= k <= s.len(),
        forall|i: int| 0 <= i < k ==> s[i] == c,
        k < s.len() ==> s[k] != c,
    ensures
        leading_matching(s, c) == k,
    decreases k,
{
    if k > 0 {
        assert(forall|i: int| 0 <= i < k - 1 ==> s.skip(1)[i] == s[i + 1]);
        lemma_matching_prefix(s.skip(1), c, k - 1);
    }
}

proof fn lemma_matching_suffix(s: Seq<char>, c: char, k: int)
    requires
        0 <= k <= s.len(),
        forall|i: int| k <= i < s.len() ==> s[i] == c,
        k > 0 ==> s[k - 1] != c,
    ensures
        trailing_matching(s, c) == s.len() - k,
    decreases s.len(),
{
    if s.len() > k {
        lemma_matching_suffix(s.take(s.len() - 1), c, k);
    }
}

/// Removes every leading and trailing occurrence of `c`, as a quoted
/// field is stripped of its quotes.
pub fn trim_matching(v: &Vec<char>, c: char) -> (r: Vec<char>)
    ensures
        r@ == spec_trim_matching(v@, c),
{
    let mut start: usize = 0;
    while start < v.len() && v[start] == c
        invariant
            0 <= start <= v.len(),
            forall|i: int| 0 <= i < start ==> v@[i] == c,
        decreases v.len() - start,
    {
        start = start + 1;
    }
    let mut end: usize = v.len();
    while end > start && v[end - 1] == c
        invariant
            start <= end <= v.len(),
            forall|i: int| 0 <= i < start ==> v@[i] == c,
            forall|i: int| end <= i < v.len() ==> v@[i] == c,
        decreases end,
    {
        end = end - 1;
    }
    let mut r: Vec<char> = Vec::new();
    let mut i: usize = start;
    while i < end
        invariant
            start <= i <= end <= v.len(),
            r@ == v@.subrange(start as int, i as int),
        decreases end - i,
    {
        r.push(v[i]);
        assert(r@ == v@.subrange(start as int, i + 1));
        i = i + 1;
    }
    proof {
        let s = v@;
        if start < end {
            lemma_matching_prefix(s, c, start as int);
            let t = s.skip(start as int);
            assert(forall|i: int| end - start <= i < t.len() ==> t[i] == s[start + i]);
            lemma_matching_suffix(t, c, end - start);
            assert(spec_trim_matching(s, c) =~= s.subrange(start as int, end as int));
        } else {
            lemma_matching_prefix(s, c, start as int);
            let t = s.skip(s.len() as int);
            assert(t.len() == 0);
            assert(spec_trim_matching(s, c) =~= s.subrange(start as int, end as int));
        }
    }
    r
}

} // verus!
