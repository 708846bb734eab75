//! Verified encoder and decoder for the crate's JSON records.
//!
//! The persisted settings file and the wire payloads are JSON objects
//! whose values are strings, nulls and booleans. Both directions are
//! specified here: `jstring`/`jopt_string`/`jopt_bool` give the exact
//! character sequence an encoded value consists of, and the `p_*` spec
//! functions are the grammar the decoder accepts (the encoder's output
//! plus optional whitespace between tokens and the customary short
//! escapes). Executable encoders and decoders are proved to match these
//! spec functions exactly.

use vstd::prelude::*;
use crate::text::{is_space, is_space_char};

verus! {

// ---------------------------------------------------------------------
// Encoding: spec side
// ---------------------------------------------------------------------

/// Hexadecimal digit for a nibble, lower case as the encoder writes it.
pub open spec fn hex_char(n: int) -> char
    recommends
        0 <= n < 16,
{
    if n == 0 { '0' } else if n == 1 { '1' } else if n == 2 { '2' } else if n == 3 { '3' }
    else if n == 4 { '4' } else if n == 5 { '5' } else if n == 6 { '6' } else if n == 7 { '7' }
    else if n == 8 { '8' } else if n == 9 { '9' } else if n == 10 { 'a' } else if n == 11 { 'b' }
    else if n == 12 { 'c' } else if n == 13 { 'd' } else if n == 14 { 'e' } else { 'f' }
}

/// Value of a hexadecimal digit; `None` on any other character.
pub open spec fn hex_val(c: char) -> Option<int> {
    if c == '0' { Some(0int) } else if c == '1' { Some(1int) } else if c == '2' { Some(2int) }
    else if c == '3' { Some(3int) } else if c == '4' { Some(4int) } else if c == '5' { Some(5int) }
    else if c == '6' { Some(6int) } else if c == '7' { Some(7int) } else if c == '8' { Some(8int) }
    else if c == '9' { Some(9int) } else if c == 'a' || c == 'A' { Some(10int) }
    else if c == 'b' || c == 'B' { Some(11int) } else if c == 'c' || c == 'C' { Some(12int) }
    else if c == 'd' || c == 'D' { Some(13int) } else if c == 'e' || c == 'E' { Some(14int) }
    else if c == 'f' || c == 'F' { Some(15int) } else { None }
}

/// How one character is written inside a JSON string: quote and
/// backslash get a backslash escape, control characters the `\u00XX`
/// form, everything else stands as itself.
pub open spec fn esc_char(c: char) -> Seq<char> {
    if c == '"' {
        seq!['\\', '"']
    } else if c == '\\' {
        seq!['\\', '\\']
    } else if (c as u32) < 32 {
        seq!['\\', 'u', '0', '0', hex_char(c as u32 as int / 16), hex_char(c as u32 as int % 16)]
    } else {
        seq![c]
    }
}

/// The escaped form of a whole string body.
pub open spec fn esc(s: Seq<char>) -> Seq<char>
    decreases s.len(),
{
    if s.len() == 0 {
        Seq::empty()
    } else {
        esc_char(s[0]) + esc(s.skip(1))
    }
}

/// A JSON string token: quoted, escaped body.
pub open spec fn jstring(s: Seq<char>) -> Seq<char> {
    seq!['"'] + esc(s) + seq!['"']
}

/// The JSON `null` token.
pub open spec fn jnull() -> Seq<char> {
    seq!['n', 'u', 'l', 'l']
}

/// An optional string: `null` when absent, a string token otherwise.
pub open spec fn jopt_string(o: Option<Seq<char>>) -> Seq<char> {
    match o {
        Option::None => jnull(),
        Option::Some(s) => jstring(s),
    }
}

/// A JSON boolean token.
pub open spec fn jbool(b: bool) -> Seq<char> {
    if b {
        seq!['t', 'r', 'u', 'e']
    } else {
        seq!['f', 'a', 'l', 's', 'e']
    }
}

/// An optional boolean: `null` when absent, a boolean token otherwise.
pub open spec fn jopt_bool(o: Option<bool>) -> Seq<char> {
    match o {
        Option::None => jnull(),
        Option::Some(b) => jbool(b),
    }
}

/// Escaping distributes over appending one character.
pub proof fn lemma_esc_snoc(s: Seq<char>, c: char)
    ensures
        esc(s.push(c)) =~= esc(s) + esc_char(c),
    decreases s.len(),
{
    if s.len() == 0 {
        assert(s.push(c).skip(1) =~= Seq::<char>::empty());
        assert(esc(s.push(c).skip(1)) =~= Seq::<char>::empty());
    } else {
        assert(s.push(c).skip(1) =~= s.skip(1).push(c));
        lemma_esc_snoc(s.skip(1), c);
    }
}

// ---------------------------------------------------------------------
// Decoding: spec side
// ---------------------------------------------------------------------

/// Index of the first non-whitespace character at or after `i`.
pub open spec fn p_ws(s: Seq<char>, i: nat) -> nat
    decreases s.len() - i,
{
    if i < s.len() && is_space(s[i as int]) {
        p_ws(s, (i + 1) as nat)
    } else {
        i
    }
}

/// Matches the exact characters `lit` at `i`; yields the index after.
pub open spec fn p_lit(s: Seq<char>, i: nat, lit: Seq<char>) -> Option<nat> {
    if i + lit.len() <= s.len() && s.subrange(i as int, (i + lit.len()) as int) == lit {
        Some((i + lit.len()) as nat)
    } else {
        None
    }
}

/// The character a short escape (the letter after the backslash) stands
/// for; `None` when the letter is no short escape.
pub open spec fn unesc_short(e: char) -> Option<char> {
    if e == '"' { Some('"') } else if e == '\\' { Some('\\') } else if e == '/' { Some('/') }
    else if e == 'n' { Some('\n') } else if e == 't' { Some('\t') } else if e == 'r' { Some('\r') }
    else { None }
}

/// Prepends decoded characters to the outcome of decoding the rest.
pub open spec fn prepend_parsed(c: Seq<char>, r: Option<(Seq<char>, nat)>) -> Option<
    (Seq<char>, nat),
> {
    match r {
        Option::None => None,
        Option::Some((t, j)) => Some((c + t, j)),
    }
}

/// Decodes a string body starting inside the quotes at `i`, up to and
/// including the closing quote; yields the decoded characters and the
/// index after the quote.
pub open spec fn p_string_body(s: Seq<char>, i: nat) -> Option<(Seq<char>, nat)>
    decreases s.len() - i,
{
    if i >= s.len() {
        None
    } else if s[i as int] == '"' {
        Some((Seq::empty(), (i + 1) as nat))
    } else if s[i as int] == '\\' {
        if i + 1 >= s.len() {
            None
        } else if s[(i + 1) as int] == 'u' {
            if i + 6 <= s.len() && s[(i + 2) as int] == '0' && s[(i + 3) as int] == '0' && hex_val(s[(i + 4) as int]) is Some
                && hex_val(s[(i + 5) as int]) is Some {
                let code = hex_val(s[(i + 4) as int]).unwrap() * 16 + hex_val(s[(i + 5) as int]).unwrap();
                prepend_parsed(seq![(code as u8) as char], p_string_body(s, (i + 6) as nat))
            } else {
                None
            }
        } else {
            match unesc_short(s[(i + 1) as int]) {
                Option::None => None,
                Option::Some(c) => prepend_parsed(seq![c], p_string_body(s, (i + 2) as nat)),
            }
        }
    } else {
        prepend_parsed(seq![s[i as int]], p_string_body(s, (i + 1) as nat))
    }
}

/// Decodes a JSON string token at `i`.
pub open spec fn p_string(s: Seq<char>, i: nat) -> Option<(Seq<char>, nat)> {
    if i < s.len() && s[i as int] == '"' {
        p_string_body(s, (i + 1) as nat)
    } else {
        None
    }
}

/// Decodes a string-or-null value at `i`.
pub open spec fn p_opt_string(s: Seq<char>, i: nat) -> Option<(Option<Seq<char>>, nat)> {
    match p_lit(s, i, jnull()) {
        Option::Some(j) => Some((None, j)),
        Option::None => match p_string(s, i) {
            Option::None => None,
            Option::Some((v, j)) => Some((Some(v), j)),
        },
    }
}

/// Decodes a boolean-or-null value at `i`.
pub open spec fn p_opt_bool(s: Seq<char>, i: nat) -> Option<(Option<bool>, nat)> {
    match p_lit(s, i, jnull()) {
        Option::Some(j) => Some((None, j)),
        Option::None => match p_lit(s, i, jbool(true)) {
            Option::Some(j) => Some((Some(true), j)),
            Option::None => match p_lit(s, i, jbool(false)) {
                Option::Some(j) => Some((Some(false), j)),
                Option::None => None,
            },
        },
    }
}

/// Skips whitespace, then matches a quoted key literal, whitespace, and
/// the colon that introduces the field's value, and skips the
/// whitespace after it. `key` carries its quotes.
pub open spec fn p_key(s: Seq<char>, i: nat, key: Seq<char>) -> Option<nat> {
    match p_lit(s, p_ws(s, i), key) {
        Option::None => None,
        Option::Some(j) => match p_lit(s, p_ws(s, j), seq![':']) {
            Option::None => None,
            Option::Some(k) => Some(p_ws(s, k)),
        },
    }
}

/// Skips whitespace and matches the comma between two fields.
pub open spec fn p_comma(s: Seq<char>, i: nat) -> Option<nat> {
    p_lit(s, p_ws(s, i), seq![','])
}


// ---------------------------------------------------------------------
// Encoding: executable side
// ---------------------------------------------------------------------

/// Executable mirror of [`hex_char`].
pub fn hex_char_exec(n: u32) -> (r: char)
    requires
        n < 16,
    ensures
        r == hex_char(n as int),
{
    if n == 0 { '0' } else if n == 1 { '1' } else if n == 2 { '2' } else if n == 3 { '3' }
    else if n == 4 { '4' } else if n == 5 { '5' } else if n == 6 { '6' } else if n == 7 { '7' }
    else if n == 8 { '8' } else if n == 9 { '9' } else if n == 10 { 'a' } else if n == 11 { 'b' }
    else if n == 12 { 'c' } else if n == 13 { 'd' } else if n == 14 { 'e' } else { 'f' }
}

/// Executable mirror of [`hex_val`]; the value is below 16 when present.
pub fn hex_val_exec(c: char) -> (r: Option<u32>)
    ensures
        r is Some <==> hex_val(c) is Some,
        r is Some ==> r.unwrap() as int == hex_val(c).unwrap() && r.unwrap() < 16,
{
    if c == '0' { Some(0u32) } else if c == '1' { Some(1u32) } else if c == '2' { Some(2u32) }
    else if c == '3' { Some(3u32) } else if c == '4' { Some(4u32) } else if c == '5' { Some(5u32) }
    else if c == '6' { Some(6u32) } else if c == '7' { Some(7u32) } else if c == '8' { Some(8u32) }
    else if c == '9' { Some(9u32) } else if c == 'a' || c == 'A' { Some(10u32) }
    else if c == 'b' || c == 'B' { Some(11u32) } else if c == 'c' || c == 'C' { Some(12u32) }
    else if c == 'd' || c == 'D' { Some(13u32) } else if c == 'e' || c == 'E' { Some(14u32) }
    else if c == 'f' || c == 'F' { Some(15u32) } else { None }
}

/// Appends the characters of `lit` to `out`.
pub fn push_lit(out: &mut Vec<char>, lit: &str)
    ensures
        final(out)@ == old(out)@ + lit@,
{
    crate::text::push_chars(out, lit);
}

/// Appends the escaped form of `s` to `out`.
pub fn push_escaped(out: &mut Vec<char>, s: &Vec<char>)
    ensures
        final(out)@ == old(out)@ + esc(s@),
{
    let mut i: usize = 0;
    while i < s.len()
        invariant
            i <= s.len(),
            out@ == old(out)@ + esc(s@.take(i as int)),
        decreases s.len() - i,
    {
        let c = s[i];
        if c == '"' {
            out.push('\\');
            out.push('"');
        } else if c == '\\' {
            out.push('\\');
            out.push('\\');
        } else if (c as u32) < 32 {
            let code = c as u32;
            out.push('\\');
            out.push('u');
            out.push('0');
            out.push('0');
            out.push(hex_char_exec(code / 16));
            out.push(hex_char_exec(code % 16));
        } else {
            out.push(c);
        }
        proof {
            lemma_esc_snoc(s@.take(i as int), s@[i as int]);
            assert(s@.take(i + 1) =~= s@.take(i as int).push(s@[i as int]));
            assert(out@ =~= old(out)@ + esc(s@.take(i + 1)));
        }
        i = i + 1;
    }
    proof {
        assert(s@.take(s@.len() as int) =~= s@);
    }
}

/// Appends a JSON string token holding `s` to `out`.
pub fn push_jstring(out: &mut Vec<char>, s: &str)
    ensures
        final(out)@ == old(out)@ + jstring(s@),
{
    out.push('"');
    let cs = crate::text::chars_of(s);
    push_escaped(out, &cs);
    out.push('"');
    proof {
        assert(out@ =~= old(out)@ + jstring(s@));
    }
}

/// Appends a string-or-null value to `out`.
pub fn push_jopt_string(out: &mut Vec<char>, s: &Option<String>)
    ensures
        final(out)@ == old(out)@ + jopt_string(s.deep_view()),
{
    match s {
        Option::Some(v) => push_jstring(out, v.as_str()),
        Option::None => {
            push_lit(out, "null");
            proof {
                reveal_strlit("null");
                assert("null"@ =~= jnull());
            }
        },
    }
}

/// Appends a boolean-or-null value to `out`.
pub fn push_jopt_bool(out: &mut Vec<char>, b: &Option<bool>)
    ensures
        final(out)@ == old(out)@ + jopt_bool(*b),
{
    match b {
        Option::Some(v) => {
            if *v {
                push_lit(out, "true");
                proof {
                    reveal_strlit("true");
                    assert("true"@ =~= jbool(true));
                }
            } else {
                push_lit(out, "false");
                proof {
                    reveal_strlit("false");
                    assert("false"@ =~= jbool(false));
                }
            }
        },
        Option::None => {
            push_lit(out, "null");
            proof {
                reveal_strlit("null");
                assert("null"@ =~= jnull());
            }
        },
    }
}

// ---------------------------------------------------------------------
// Decoding: executable side
// ---------------------------------------------------------------------

/// Composing two prefix prepends is prepending the concatenation.
proof fn lemma_prepend_assoc(a: Seq<char>, b: Seq<char>, r: Option<(Seq<char>, nat)>)
    ensures
        prepend_parsed(a, prepend_parsed(b, r)) == prepend_parsed(a + b, r),
{
    match r {
        Option::None => {},
        Option::Some((t, j)) => {
            assert(a + (b + t) =~= (a + b) + t);
        },
    }
}

/// Advances past whitespace, exactly as [`p_ws`] says.
pub fn skip_ws(v: &Vec<char>, i: usize) -> (r: usize)
    requires
        i <= v.len(),
    ensures
        r as nat == p_ws(v@, i as nat),
        i <= r <= v.len(),
{
    let mut j = i;
    while j < v.len() && is_space_char(v[j])
        invariant
            i <= j <= v.len(),
            p_ws(v@, i as nat) == p_ws(v@, j as nat),
        decreases v.len() - j,
    {
        j = j + 1;
    }
    j
}

/// Matches the characters of `lit` at `i`, exactly as [`p_lit`] says.
pub fn expect_lit(v: &Vec<char>, i: usize, lit: &str) -> (r: Option<usize>)
    requires
        i <= v.len(),
    ensures
        r is Some <==> p_lit(v@, i as nat, lit@) is Some,
        r is Some ==> r.unwrap() as nat == p_lit(v@, i as nat, lit@).unwrap() && r.unwrap()
            <= v.len(),
{
    let cs = crate::text::chars_of(lit);
    if v.len() - i < cs.len() {
        return None;
    }
    let mut k: usize = 0;
    while k < cs.len()
        invariant
            0 <= k <= cs.len(),
            i + cs.len() <= v.len(),
            cs@ == lit@,
            forall|t: int| 0 <= t < k ==> v@[i + t] == cs@[t],
        decreases cs.len() - k,
    {
        if v[i + k] != cs[k] {
            proof {
                let sub = v@.subrange(i as int, (i + lit@.len()) as int);
                assert(sub[k as int] == v@[i + k]);
                assert(sub != lit@);
            }
            return None;
        }
        k = k + 1;
    }
    proof {
        assert(v@.subrange(i as int, (i + lit@.len()) as int) =~= cs@);
    }
    Some(i + cs.len())
}

/// Executable mirror of [`unesc_short`].
fn unesc_short_exec(e: char) -> (r: Option<char>)
    ensures
        r == unesc_short(e),
{
    if e == '"' { Some('"') } else if e == '\\' { Some('\\') } else if e == '/' { Some('/') }
    else if e == 'n' { Some('\n') } else if e == 't' { Some('\t') } else if e == 'r' { Some('\r') }
    else { None }
}

/// Decodes a JSON string token at `i`, exactly as [`p_string`] says.
pub fn parse_string(v: &Vec<char>, i: usize) -> (r: Option<(String, usize)>)
    requires
        i <= v.len(),
    ensures
        r is Some <==> p_string(v@, i as nat) is Some,
        r is Some ==> r.unwrap().0@ == p_string(v@, i as nat).unwrap().0 && r.unwrap().1 as nat
            == p_string(v@, i as nat).unwrap().1 && r.unwrap().1 <= v.len(),
{
    if i >= v.len() || v[i] != '"' {
        return None;
    }
    let start = i + 1;
    let mut c: Vec<char> = Vec::new();
    let mut j = start;
    loop
        invariant
            start <= j <= v.len(),
            i < v.len(),
            v@[i as int] == '"',
            p_string(v@, i as nat) == p_string_body(v@, start as nat),
            p_string_body(v@, start as nat) == prepend_parsed(
                c@,
                p_string_body(v@, j as nat),
            ),
        decreases v.len() - j,
    {
        if j >= v.len() {
            return None;
        }
        let ch = v[j];
        if ch == '"' {
            proof {
                assert(p_string_body(v@, j as nat) == Some(
                    (Seq::<char>::empty(), (j + 1) as nat),
                ));
                assert(c@ + Seq::<char>::empty() =~= c@);
            }
            let s = crate::text::string_of(&c);
            return Some((s, j + 1));
        } else if ch == '\\' {
            if v.len() - j < 2 {
                return None;
            }
            let e = v[j + 1];
            if e == 'u' {
                if v.len() - j < 6 {
                    return None;
                }
                if v[j + 2] != '0' || v[j + 3] != '0' {
                    return None;
                }
                let h4 = hex_val_exec(v[j + 4]);
                let h5 = hex_val_exec(v[j + 5]);
                match (h4, h5) {
                    (Option::Some(a), Option::Some(b)) => {
                        let code = a * 16 + b;
                        let dec = (code as u8) as char;
                        proof {
                            assert(p_string_body(v@, j as nat) == prepend_parsed(
                                seq![dec],
                                p_string_body(v@, (j + 6) as nat),
                            ));
                            lemma_prepend_assoc(
                                c@,
                                seq![dec],
                                p_string_body(v@, (j + 6) as nat),
                            );
                            assert(c@.push(dec) =~= c@ + seq![dec]);
                        }
                        c.push(dec);
                        j = j + 6;
                    },
                    _ => {
                        return None;
                    },
                }
            } else {
                match unesc_short_exec(e) {
                    Option::Some(dec) => {
                        proof {
                            assert(p_string_body(v@, j as nat) == prepend_parsed(
                                seq![dec],
                                p_string_body(v@, (j + 2) as nat),
                            ));
                            lemma_prepend_assoc(
                                c@,
                                seq![dec],
                                p_string_body(v@, (j + 2) as nat),
                            );
                            assert(c@.push(dec) =~= c@ + seq![dec]);
                        }
                        c.push(dec);
                        j = j + 2;
                    },
                    Option::None => {
                        return None;
                    },
                }
            }
        } else {
            proof {
                assert(p_string_body(v@, j as nat) == prepend_parsed(
                    seq![ch],
                    p_string_body(v@, (j + 1) as nat),
                ));
                lemma_prepend_assoc(c@, seq![ch], p_string_body(v@, (j + 1) as nat));
                assert(c@.push(ch) =~= c@ + seq![ch]);
            }
            c.push(ch);
            j = j + 1;
        }
    }
}

/// Decodes a string-or-null value, exactly as [`p_opt_string`] says.
pub fn parse_opt_string(v: &Vec<char>, i: usize) -> (r: Option<(Option<String>, usize)>)
    requires
        i <= v.len(),
    ensures
        r is Some <==> p_opt_string(v@, i as nat) is Some,
        r is Some ==> r.unwrap().0.deep_view() == p_opt_string(v@, i as nat).unwrap().0
            && r.unwrap().1 as nat == p_opt_string(v@, i as nat).unwrap().1 && r.unwrap().1
            <= v.len(),
{
    proof {
        reveal_strlit("null");
        assert("null"@ =~= jnull());
    }
    match expect_lit(v, i, "null") {
        Option::Some(j) => Some((None, j)),
        Option::None => match parse_string(v, i) {
            Option::Some((s, j)) => Some((Some(s), j)),
            Option::None => None,
        },
    }
}

/// Decodes a boolean-or-null value, exactly as [`p_opt_bool`] says.
pub fn parse_opt_bool(v: &Vec<char>, i: usize) -> (r: Option<(Option<bool>, usize)>)
    requires
        i <= v.len(),
    ensures
        r is Some <==> p_opt_bool(v@, i as nat) is Some,
        r is Some ==> r.unwrap().0 == p_opt_bool(v@, i as nat).unwrap().0 && r.unwrap().1 as nat
            == p_opt_bool(v@, i as nat).unwrap().1 && r.unwrap().1 <= v.len(),
{
    proof {
        reveal_strlit("null");
        reveal_strlit("true");
        reveal_strlit("false");
        assert("null"@ =~= jnull());
        assert("true"@ =~= jbool(true));
        assert("false"@ =~= jbool(false));
    }
    match expect_lit(v, i, "null") {
        Option::Some(j) => Some((None, j)),
        Option::None => match expect_lit(v, i, "true") {
            Option::Some(j) => Some((Some(true), j)),
            Option::None => match expect_lit(v, i, "false") {
                Option::Some(j) => Some((Some(false), j)),
                Option::None => None,
            },
        },
    }
}

/// Matches a field key (with quotes) and its colon, exactly as
/// [`p_key`] says.
pub fn expect_key(v: &Vec<char>, i: usize, key: &str) -> (r: Option<usize>)
    requires
        i <= v.len(),
    ensures
        r is Some <==> p_key(v@, i as nat, key@) is Some,
        r is Some ==> r.unwrap() as nat == p_key(v@, i as nat, key@).unwrap() && r.unwrap()
            <= v.len(),
{
    let i1 = skip_ws(v, i);
    match expect_lit(v, i1, key) {
        Option::None => None,
        Option::Some(j) => {
            let j1 = skip_ws(v, j);
            proof {
                reveal_strlit(":");
                assert(":"@ =~= seq![':']);
            }
            match expect_lit(v, j1, ":") {
                Option::None => None,
                Option::Some(k) => Some(skip_ws(v, k)),
            }
        },
    }
}

/// Matches the comma between two fields, exactly as [`p_comma`] says.
pub fn expect_comma(v: &Vec<char>, i: usize) -> (r: Option<usize>)
    requires
        i <= v.len(),
    ensures
        r is Some <==> p_comma(v@, i as nat) is Some,
        r is Some ==> r.unwrap() as nat == p_comma(v@, i as nat).unwrap() && r.unwrap() <= v.len(),
{
    let i1 = skip_ws(v, i);
    proof {
        reveal_strlit(",");
        assert(","@ =~= seq![',']);
    }
    expect_lit(v, i1, ",")
}


// ---------------------------------------------------------------------
// Round trip: the decoder accepts exactly what the encoder wrote
// ---------------------------------------------------------------------

/// Two characters with the same code point are the same character.
proof fn lemma_char_code_injective(a: char, b: char)
    requires
        a as u32 == b as u32,
    ensures
        a == b,
{
}

/// Whitespace skipping stands still on a non-whitespace character.
pub proof fn lemma_p_ws_at(s: Seq<char>, i: nat)
    requires
        i <= s.len(),
        i < s.len() ==> !is_space(s[i as int]),
    ensures
        p_ws(s, i) == i,
{
}

/// A literal that stands at `i` is matched there.
pub proof fn lemma_p_lit_at(s: Seq<char>, i: nat, lit: Seq<char>)
    requires
        i + lit.len() <= s.len(),
        s.subrange(i as int, (i + lit.len()) as int) == lit,
    ensures
        p_lit(s, i, lit) == Some((i + lit.len()) as nat),
{
}

/// Reading back the hexadecimal digit of a nibble yields the nibble.
pub proof fn lemma_hex_roundtrip(n: int)
    requires
        0 <= n < 16,
    ensures
        hex_val(hex_char(n)) == Some(n),
{
}

/// The string-body decoder, fed the escaped form of a string followed
/// by the closing quote, yields exactly that string and stops after the
/// quote.
pub proof fn lemma_p_string_body_at(s: Seq<char>, i: nat, content: Seq<char>)
    requires
        i + esc(content).len() + 1 <= s.len(),
        s.subrange(i as int, (i + esc(content).len() + 1) as int) == esc(content) + seq!['"'],
    ensures
        p_string_body(s, i) == Some((content, (i + esc(content).len() + 1) as nat)),
    decreases content.len(),
{
    let e = esc(content);
    let w = e + seq!['"'];
    assert(forall|k: int|
        0 <= k < w.len() ==> s[i as int + k] == #[trigger] w[k]) by {
        assert(forall|k: int|
            0 <= k < w.len() ==> #[trigger] w[k] == s.subrange(
                i as int,
                (i + e.len() + 1) as int,
            )[k]);
    }
    if content.len() == 0 {
        assert(s[i as int] == w[0]);
        assert(w[0] == '"');
        assert(s[i as int] == '"');
    } else {
        let c0 = content[0];
        let e0 = esc_char(c0);
        let rest = content.skip(1);
        assert(e == e0 + esc(rest));
        let j = (i + e0.len()) as nat;
        assert(s.subrange(j as int, (j + esc(rest).len() + 1) as int) =~= esc(rest) + seq!['"'])
            by {
            assert(forall|k: int|
                0 <= k < esc(rest).len() + 1 ==> s[j as int + k] == #[trigger] (esc(rest)
                    + seq!['"'])[k]) by {
                assert(forall|k: int|
                    0 <= k < esc(rest).len() + 1 ==> (e0 + (esc(rest) + seq!['"']))[e0.len() + k]
                        == #[trigger] (esc(rest) + seq!['"'])[k]);
                assert(w =~= e0 + (esc(rest) + seq!['"']));
            }
        }
        lemma_p_string_body_at(s, j, rest);
        assert(seq![c0] + rest =~= content);
        if c0 == '"' {
            assert(s[i as int] == w[0] && s[i as int + 1] == w[1]);
            assert(w[0] == e[0] && w[1] == e[1]);
            assert(e[0] == e0[0] && e[1] == e0[1]);
            assert(s[i as int] == '\\' && s[i as int + 1] == '"');
            assert(unesc_short('"') == Some('"'));
            assert(p_string_body(s, i) == prepend_parsed(seq![c0], p_string_body(s, (i + 2) as nat)));
        } else if c0 == '\\' {
            assert(s[i as int] == w[0] && s[i as int + 1] == w[1]);
            assert(w[0] == e[0] && w[1] == e[1]);
            assert(e[0] == e0[0] && e[1] == e0[1]);
            assert(s[i as int] == '\\' && s[i as int + 1] == '\\');
            assert(p_string_body(s, i) == prepend_parsed(seq![c0], p_string_body(s, (i + 2) as nat)));
        } else if (c0 as u32) < 32 {
            let code = c0 as u32 as int;
            assert(forall|k: int| 0 <= k < 6 ==> #[trigger] w[k] == e0[k]) by {
                assert(forall|k: int| 0 <= k < 6 ==> w[k] == e[k]);
                assert(forall|k: int| 0 <= k < 6 ==> e[k] == e0[k]);
            }
            assert(s[i as int] == w[0] && s[i as int + 1] == w[1] && s[i as int + 2] == w[2]
                && s[i as int + 3] == w[3] && s[i as int + 4] == w[4] && s[i as int + 5] == w[5]);
            assert(s[i as int] == '\\' && s[i as int + 1] == 'u' && s[i as int + 2] == '0' && s[i as int + 3] == '0');
            assert(s[i as int + 4] == hex_char(code / 16) && s[i as int + 5] == hex_char(code % 16));
            lemma_hex_roundtrip(code / 16);
            lemma_hex_roundtrip(code % 16);
            vstd::arithmetic::div_mod::lemma_fundamental_div_mod(code, 16);
            assert(code / 16 * 16 + code % 16 == code);
            assert(0 <= code < 32);
            assert((code as u8) as int == code);
            assert(((code as u8) as char) as u32 as int == code);
            assert(c0 as u32 as int == code);
            assert(((code as u8) as char) as u32 == c0 as u32);
            lemma_char_code_injective((code as u8) as char, c0);
            assert(((code as u8) as char) == c0);
            assert(p_string_body(s, i) == prepend_parsed(seq![c0], p_string_body(s, (i + 6) as nat)));
        } else {
            assert(s[i as int] == w[0]);
            assert(e[0] == e0[0]);
            assert(w[0] == e[0]);
            assert(s[i as int] == c0);
            assert(c0 != '"' && c0 != '\\');
            assert(p_string_body(s, i) == prepend_parsed(seq![c0], p_string_body(s, (i + 1) as nat)));
        }
    }
}

/// A string token that stands at `i` decodes to its content.
pub proof fn lemma_p_string_at(s: Seq<char>, i: nat, content: Seq<char>)
    requires
        i + jstring(content).len() <= s.len(),
        s.subrange(i as int, (i + jstring(content).len()) as int) == jstring(content),
    ensures
        p_string(s, i) == Some((content, (i + jstring(content).len()) as nat)),
{
    let w = jstring(content);
    assert(forall|k: int|
        0 <= k < w.len() ==> s[i as int + k] == #[trigger] w[k]) by {
        assert(forall|k: int|
            0 <= k < w.len() ==> #[trigger] w[k] == s.subrange(i as int, (i + w.len()) as int)[k]);
    }
    assert(s[i as int] == w[0]);
    assert(w[0] == '"');
    assert(s.subrange((i + 1) as int, (i + 1 + esc(content).len() + 1) as int) =~= esc(content)
        + seq!['"']) by {
        assert(forall|k: int|
            0 <= k < esc(content).len() + 1 ==> s[i as int + 1 + k] == #[trigger] (esc(content)
                + seq!['"'])[k]) by {
            assert(forall|k: int|
                0 <= k < esc(content).len() + 1 ==> (seq!['"'] + (esc(content) + seq!['"']))[1 + k]
                    == #[trigger] (esc(content) + seq!['"'])[k]);
            assert(w =~= seq!['"'] + (esc(content) + seq!['"']));
        }
    }
    lemma_p_string_body_at(s, (i + 1) as nat, content);
}

/// A string-or-null value that stands at `i` decodes to itself.
pub proof fn lemma_p_opt_string_at(s: Seq<char>, i: nat, o: Option<Seq<char>>)
    requires
        i + jopt_string(o).len() <= s.len(),
        s.subrange(i as int, (i + jopt_string(o).len()) as int) == jopt_string(o),
    ensures
        p_opt_string(s, i) == Some((o, (i + jopt_string(o).len()) as nat)),
{
    let w = jopt_string(o);
    assert(forall|k: int|
        0 <= k < w.len() ==> s[i as int + k] == #[trigger] w[k]) by {
        assert(forall|k: int|
            0 <= k < w.len() ==> #[trigger] w[k] == s.subrange(i as int, (i + w.len()) as int)[k]);
    }
    match o {
        Option::None => {
            lemma_p_lit_at(s, i, jnull());
        },
        Option::Some(content) => {
            assert(s[i as int] == w[0]);
            assert(w[0] == '"');
            assert(p_lit(s, i, jnull()) is None) by {
                if i + 4 <= s.len() && s.subrange(i as int, i as int + 4) == jnull() {
                    assert(s.subrange(i as int, i as int + 4)[0] == s[i as int]);
                }
            }
            lemma_p_string_at(s, i, content);
        },
    }
}

/// A boolean-or-null value that stands at `i` decodes to itself.
pub proof fn lemma_p_opt_bool_at(s: Seq<char>, i: nat, o: Option<bool>)
    requires
        i + jopt_bool(o).len() <= s.len(),
        s.subrange(i as int, (i + jopt_bool(o).len()) as int) == jopt_bool(o),
    ensures
        p_opt_bool(s, i) == Some((o, (i + jopt_bool(o).len()) as nat)),
{
    let w = jopt_bool(o);
    assert(forall|k: int|
        0 <= k < w.len() ==> s[i as int + k] == #[trigger] w[k]) by {
        assert(forall|k: int|
            0 <= k < w.len() ==> #[trigger] w[k] == s.subrange(i as int, (i + w.len()) as int)[k]);
    }
    match o {
        Option::None => {
            lemma_p_lit_at(s, i, jnull());
        },
        Option::Some(b) => {
            assert(s[i as int] == w[0]);
            assert(b ==> w[0] == 't');
            assert(!b ==> w[0] == 'f');
            assert(p_lit(s, i, jnull()) is None) by {
                if i + 4 <= s.len() && s.subrange(i as int, i as int + 4) == jnull() {
                    assert(s.subrange(i as int, i as int + 4)[0] == s[i as int]);
                }
            }
            if b {
                lemma_p_lit_at(s, i, jbool(true));
            } else {
                assert(p_lit(s, i, jbool(true)) is None) by {
                    if i + 4 <= s.len() && s.subrange(i as int, i as int + 4) == jbool(true) {
                        assert(s.subrange(i as int, i as int + 4)[0] == s[i as int]);
                    }
                }
                lemma_p_lit_at(s, i, jbool(false));
            }
        },
    }
}

/// A quoted key with its colon, standing at `i` and followed by a
/// non-whitespace character, is matched by the key decoder.
pub proof fn lemma_p_key_at(s: Seq<char>, i: nat, name: Seq<char>)
    requires
        i + name.len() + 3 <= s.len(),
        s.subrange(i as int, (i + name.len() + 3) as int) == seq!['"'] + name + seq!['"', ':'],
        i + name.len() + 3 < s.len() ==> !is_space(s[(i + name.len() + 3) as int]),
    ensures
        p_key(s, i, seq!['"'] + name + seq!['"']) == Some((i + name.len() + 3) as nat),
{
    let w = seq!['"'] + name + seq!['"', ':'];
    assert(forall|k: int|
        0 <= k < w.len() ==> s[i as int + k] == #[trigger] w[k]) by {
        assert(forall|k: int|
            0 <= k < w.len() ==> #[trigger] w[k] == s.subrange(
                i as int,
                (i + name.len() + 3) as int,
            )[k]);
    }
    assert(s[i as int] == w[0]);
    assert(w[0] == '"');
    lemma_p_ws_at(s, i);
    let key = seq!['"'] + name + seq!['"'];
    assert(s.subrange(i as int, (i + key.len()) as int) =~= key) by {
        assert(forall|k: int| 0 <= k < key.len() ==> #[trigger] w[k] == key[k]);
    }
    lemma_p_lit_at(s, i, key);
    let j = (i + name.len() + 2) as nat;
    assert(s[j as int] == w[name.len() as int + 2]);
    assert(w[name.len() as int + 2] == ':');
    lemma_p_ws_at(s, j);
    assert(s.subrange(j as int, (j + 1) as int) =~= seq![':']);
    lemma_p_lit_at(s, j, seq![':']);
    lemma_p_ws_at(s, (i + name.len() + 3) as nat);
}

/// A comma standing at `i` is matched by the separator decoder.
pub proof fn lemma_p_comma_at(s: Seq<char>, i: nat)
    requires
        i < s.len(),
        s[i as int] == ',',
    ensures
        p_comma(s, i) == Some((i + 1) as nat),
{
    lemma_p_ws_at(s, i);
    assert(s.subrange(i as int, (i + 1) as int) =~= seq![',']);
    lemma_p_lit_at(s, i, seq![',']);
}


/// A string token is at least the two quotes and starts with one.
pub proof fn lemma_jstring_head(s: Seq<char>)
    ensures
        jstring(s).len() >= 2,
        jstring(s)[0] == '"',
        !is_space(jstring(s)[0]),
{
}

/// An optional string's encoding is nonempty and starts with a quote or
/// the `n` of `null`.
pub proof fn lemma_jopt_string_head(o: Option<Seq<char>>)
    ensures
        jopt_string(o).len() >= 2,
        !is_space(jopt_string(o)[0]),
{
    match o {
        Option::None => {
            assert(jnull()[0] == 'n');
        },
        Option::Some(s) => {
            lemma_jstring_head(s);
        },
    }
}

/// An optional boolean's encoding is nonempty and starts with a letter.
pub proof fn lemma_jopt_bool_head(o: Option<bool>)
    ensures
        jopt_bool(o).len() >= 4,
        !is_space(jopt_bool(o)[0]),
{
    match o {
        Option::None => {
            assert(jnull()[0] == 'n');
        },
        Option::Some(b) => {
            if b {
                assert(jbool(true)[0] == 't');
            } else {
                assert(jbool(false)[0] == 'f');
            }
        },
    }
}

} // verus!
