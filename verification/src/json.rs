//! JSON text for the stored credential records. The records are written in
//! the canonical form their serializer produces — fields in declaration
//! order, no whitespace, absent optional fields skipped — and read back by a
//! parser for exactly that grammar, with JSON string escaping in full. The
//! decoders accept exactly this canonical form, which is everything this
//! library ever writes; a record produced by another serializer (reordered
//! fields, added whitespace) is rejected as malformed.

use vstd::prelude::*;
use crate::strutil::{
    is_digit, spec_digits_val, lemma_nat_chars_val, lemma_nat_chars_digits, spec_nat_chars,
    spec_int_chars, str_to_chars, spec_starts_with, chars_start_with_at,
};

verus! {

/// The hexadecimal digit character for `d` in `0..16`, lowercase.
pub open spec fn spec_hex_char(d: int) -> char {
    if d < 10 {
        ((48 + d) as u8) as char
    } else {
        ((87 + d) as u8) as char
    }
}

/// The value of a hexadecimal digit character, `-1` for any other character.
pub open spec fn spec_hex_val(c: char) -> int {
    if 48 <= c as u32 <= 57 {
        c as u32 - 48
    } else if 97 <= c as u32 <= 102 {
        c as u32 - 87
    } else if 65 <= c as u32 <= 70 {
        c as u32 - 55
    } else {
        -1
    }
}

/// The JSON escape of one character: quote and backslash get a backslash,
/// the common control characters their short escapes, the remaining control
/// characters a `\u00..` escape, and everything else stands as itself.
pub open spec fn spec_escape_char(c: char) -> Seq<char> {
    if c == '"' {
        seq!['\\', '"']
    } else if c == '\\' {
        seq!['\\', '\\']
    } else if c == '\n' {
        seq!['\\', 'n']
    } else if c == '\r' {
        seq!['\\', 'r']
    } else if c == '\t' {
        seq!['\\', 't']
    } else if c == '\u{8}' {
        seq!['\\', 'b']
    } else if c == '\u{c}' {
        seq!['\\', 'f']
    } else if (c as u32) < 32 {
        seq!['\\', 'u', '0', '0', spec_hex_char(c as u32 as int / 16), spec_hex_char(c as u32 as int % 16)]
    } else {
        seq![c]
    }
}

/// The JSON escape of a whole string body (without the surrounding quotes).
pub open spec fn spec_escape(s: Seq<char>) -> Seq<char>
    decreases s.len(),
{
    if s.len() == 0 {
        Seq::<char>::empty()
    } else {
        spec_escape_char(s[0]) + spec_escape(s.drop_first())
    }
}

/// Escaping distributes over concatenation.
pub proof fn lemma_escape_concat(a: Seq<char>, b: Seq<char>)
    ensures
        spec_escape(a + b) == spec_escape(a) + spec_escape(b),
    decreases a.len(),
{
    if a.len() == 0 {
        assert(a + b =~= b);
        assert(spec_escape(a) + spec_escape(b) =~= spec_escape(b));
    } else {
        assert((a + b).drop_first() =~= a.drop_first() + b);
        lemma_escape_concat(a.drop_first(), b);
        assert((a + b)[0] == a[0]);
        assert(spec_escape(a + b) =~= spec_escape(a) + spec_escape(b));
    }
}

/// Reads a JSON string body up to and including its closing quote. Returns
/// the decoded content and the remainder after the quote; `None` on a
/// malformed body (an unknown escape, a bare control character, or no
/// closing quote).
pub open spec fn spec_parse_string(s: Seq<char>) -> Option<(Seq<char>, Seq<char>)>
    decreases s.len(),
{
    if s.len() == 0 {
        None
    } else if s[0] == '"' {
        Some((Seq::<char>::empty(), s.drop_first()))
    } else if s[0] == '\\' {
        if s.len() < 2 {
            None
        } else {
            let e = s[1];
            if e == 'u' {
                if s.len() >= 6 && s[2] == '0' && s[3] == '0' && spec_hex_val(s[4]) >= 0
                    && spec_hex_val(s[5]) >= 0 {
                    let c = (((spec_hex_val(s[4]) * 16 + spec_hex_val(s[5])) as u8) as char);
                    match spec_parse_string(s.skip(6)) {
                        Some(p) => Some((seq![c] + p.0, p.1)),
                        None => None,
                    }
                } else {
                    None
                }
            } else if e == '"' || e == '\\' || e == '/' || e == 'n' || e == 'r' || e == 't' || e
                == 'b' || e == 'f' {
                let c = if e == '"' {
                    '"'
                } else if e == '\\' {
                    '\\'
                } else if e == '/' {
                    '/'
                } else if e == 'n' {
                    '\n'
                } else if e == 'r' {
                    '\r'
                } else if e == 't' {
                    '\t'
                } else if e == 'b' {
                    '\u{8}'
                } else {
                    '\u{c}'
                };
                match spec_parse_string(s.skip(2)) {
                    Some(p) => Some((seq![c] + p.0, p.1)),
                    None => None,
                }
            } else {
                None
            }
        }
    } else if (s[0] as u32) < 32 {
        None
    } else {
        match spec_parse_string(s.drop_first()) {
            Some(p) => Some((seq![s[0]] + p.0, p.1)),
            None => None,
        }
    }
}

proof fn lemma_char_eq(a: char, b: char)
    requires
        a as u32 == b as u32,
    ensures
        a == b,
{
}

/// Law: reading an escaped string body finds exactly the original string
/// and leaves exactly what follows the closing quote.
pub proof fn lemma_parse_escaped(s: Seq<char>, rest: Seq<char>)
    ensures
        spec_parse_string(spec_escape(s) + seq!['"'] + rest) == Some((s, rest)),
    decreases s.len(),
{
    let full = spec_escape(s) + seq!['"'] + rest;
    if s.len() == 0 {
        assert(full =~= seq!['"'] + rest);
        assert(full[0] == '"');
        assert(full.drop_first() =~= rest);
    } else {
        let c = s[0];
        let tail = s.drop_first();
        lemma_parse_escaped(tail, rest);
        let sub = spec_escape(tail) + seq!['"'] + rest;
        assert(spec_escape(s) == spec_escape_char(c) + spec_escape(tail));
        assert(full =~= spec_escape_char(c) + sub);
        assert(seq![c] + tail =~= s);
        if c == '"' || c == '\\' || c == '\n' || c == '\r' || c == '\t' || c == '\u{8}' || c
            == '\u{c}' {
            assert(spec_escape_char(c).len() == 2);
            assert(full[0] == '\\');
            assert(full.skip(2) =~= sub);
            assert(spec_parse_string(full) == Some((s, rest)));
        } else if (c as u32) < 32 {
            let code = c as u32 as int;
            let hi = spec_hex_char(code / 16);
            let lo = spec_hex_char(code % 16);
            assert(spec_escape_char(c) == seq!['\\', 'u', '0', '0', hi, lo]);
            assert(full[0] == '\\' && full[1] == 'u' && full[2] == '0' && full[3] == '0'
                && full[4] == hi && full[5] == lo);
            assert(full.len() >= 6);
            assert(spec_hex_val(hi) == code / 16) by {
                assert(code / 16 < 10);
                assert(hi as u32 == 48 + code / 16);
            }
            assert(spec_hex_val(lo) == code % 16) by {
                if code % 16 < 10 {
                    assert(lo as u32 == 48 + code % 16);
                } else {
                    assert(lo as u32 == 87 + code % 16);
                }
            }
            assert((code / 16) * 16 + code % 16 == code);
            assert(spec_hex_val(full[4]) * 16 + spec_hex_val(full[5]) == code);
            assert(0 <= code < 32);
            assert((code as u8) as char as u32 == code);
            assert(c as u32 == code);
            assert((code as u8) as char as u32 == c as u32);
            lemma_char_eq((code as u8) as char, c);
            assert((code as u8) as char == c);
            assert((((spec_hex_val(full[4]) * 16 + spec_hex_val(full[5])) as u8) as char) == c);
            assert(full.skip(6) =~= sub);
            assert(spec_parse_string(full) == Some((s, rest)));
        } else {
            assert(spec_escape_char(c) == seq![c]);
            assert(full[0] == c);
            assert(c != '"' && c != '\\');
            assert(full.drop_first() =~= sub);
            assert(spec_parse_string(full) == Some((s, rest)));
        }
    }
}

/// Strips the exact literal `lit` from the front of `s`.
pub open spec fn spec_lit(s: Seq<char>, lit: Seq<char>) -> Option<Seq<char>> {
    if spec_starts_with(s, lit) {
        Some(s.skip(lit.len() as int))
    } else {
        None
    }
}

/// A literal strips off what was put in front.
pub proof fn lemma_lit_prefix(lit: Seq<char>, tail: Seq<char>)
    ensures
        spec_lit(lit + tail, lit) == Some(tail),
{
    assert((lit + tail).subrange(0, lit.len() as int) =~= lit);
    assert((lit + tail).skip(lit.len() as int) =~= tail);
}

/// A literal does not match where some position differs.
pub proof fn lemma_lit_mismatch(s: Seq<char>, lit: Seq<char>, k: int)
    requires
        0 <= k < lit.len(),
        k < s.len(),
        s[k] != lit[k],
    ensures
        spec_lit(s, lit) is None,
{
    if s.len() >= lit.len() {
        assert(s.subrange(0, lit.len() as int)[k] == s[k]);
    }
}

/// The length of the leading run of decimal digits.
pub open spec fn spec_digit_run(s: Seq<char>) -> int
    decreases s.len(),
{
    if s.len() > 0 && is_digit(s[0]) {
        1 + spec_digit_run(s.drop_first())
    } else {
        0
    }
}

/// The digit run of digits-then-something-else is exactly the digits.
pub proof fn lemma_digit_run_exact(a: Seq<char>, rest: Seq<char>)
    requires
        forall|i: int| 0 <= i < a.len() ==> is_digit(#[trigger] a[i]),
        rest.len() == 0 || !is_digit(rest[0]),
    ensures
        spec_digit_run(a + rest) == a.len(),
    decreases a.len(),
{
    if a.len() == 0 {
        assert(a + rest =~= rest);
    } else {
        assert((a + rest).drop_first() =~= a.drop_first() + rest);
        lemma_digit_run_exact(a.drop_first(), rest);
        assert((a + rest)[0] == a[0]);
    }
}

/// Reads an optionally-signed decimal integer in 32-bit signed range.
/// Returns the value and the remainder after its digits; `None` when there
/// is no digit or the value is out of range.
pub open spec fn spec_parse_int(s: Seq<char>) -> Option<(int, Seq<char>)> {
    let neg = s.len() > 0 && s[0] == '-';
    let t = if neg {
        s.drop_first()
    } else {
        s
    };
    let n = spec_digit_run(t);
    if n >= 1 {
        let v = spec_digits_val(t.take(n));
        let sv: int = if neg {
            -v
        } else {
            v
        };
        if i32::MIN <= sv <= i32::MAX {
            Some((sv, t.skip(n)))
        } else {
            None
        }
    } else {
        None
    }
}

/// Law: reading back a rendered 32-bit value finds exactly that value,
/// provided what follows does not begin with a digit.
pub proof fn lemma_parse_int_round_trip(n: int, rest: Seq<char>)
    requires
        i32::MIN <= n <= i32::MAX,
        rest.len() == 0 || !is_digit(rest[0]),
    ensures
        spec_parse_int(spec_int_chars(n) + rest) == Some((n, rest)),
{
    let m: nat = if n < 0 {
        (-n) as nat
    } else {
        n as nat
    };
    lemma_nat_chars_digits(m);
    lemma_nat_chars_val(m);
    lemma_digit_run_exact(spec_nat_chars(m), rest);
    let d = spec_nat_chars(m);
    assert(d.len() >= 1);
    if n < 0 {
        let s = spec_int_chars(n) + rest;
        assert(s =~= seq!['-'] + d + rest);
        assert(s[0] == '-');
        assert(s.drop_first() =~= d + rest);
        assert(spec_digit_run(d + rest) == d.len());
        assert((d + rest).take(d.len() as int) =~= d);
        assert((d + rest).skip(d.len() as int) =~= rest);
        assert(is_digit(d[0]));
        assert(s[0] != d[0]);
    } else {
        let s = spec_int_chars(n) + rest;
        assert(s =~= d + rest);
        assert(s.take(d.len() as int) =~= d);
        assert(s.skip(d.len() as int) =~= rest);
        assert(is_digit(s[0]));
        assert(s[0] != '-');
    }
}

} // verus!

verus! {

use crate::{Credentials, CredentialsView, LoginCredentials, LoginCredentialsView,
    AppTokenCredentials, AppTokenCredentialsView};
use crate::strutil::{append_str, append_chars, chars_to_string, i32_chars};

/// Decimal-digit test on one character.
fn is_digit_char(c: char) -> (r: bool)
    ensures
        r == is_digit(c),
{
    let u: u32 = c as u32;
    48 <= u && u <= 57
}

/// The hexadecimal digit value of `c`, `-1` for any other character.
fn hex_val_exec(c: char) -> (r: i32)
    ensures
        r as int == spec_hex_val(c),
{
    let u: u32 = c as u32;
    if 48 <= u && u <= 57 {
        (u - 48) as i32
    } else if 97 <= u && u <= 102 {
        (u - 87) as i32
    } else if 65 <= u && u <= 70 {
        (u - 55) as i32
    } else {
        -1
    }
}

/// Appends the JSON escape of `s` to `out`.
fn push_escaped(out: &mut Vec<char>, s: &str)
    ensures
        final(out)@ == old(out)@ + spec_escape(s@),
{
    let cs = str_to_chars(s);
    proof {
        assert(cs@.take(0) =~= Seq::<char>::empty());
        assert(old(out)@ + Seq::<char>::empty() =~= old(out)@);
    }
    let mut i: usize = 0;
    while i < cs.len()
        invariant
            i <= cs@.len(),
            cs@ == s@,
            out@ == old(out)@ + spec_escape(cs@.take(i as int)),
        decreases cs@.len() - i,
    {
        let c = cs[i];
        let ghost done = cs@.take(i as int);
        if c == '"' {
            out.push('\\');
            out.push('"');
        } else if c == '\\' {
            out.push('\\');
            out.push('\\');
        } else if c == '\n' {
            out.push('\\');
            out.push('n');
        } else if c == '\r' {
            out.push('\\');
            out.push('r');
        } else if c == '\t' {
            out.push('\\');
            out.push('t');
        } else if c == '\u{8}' {
            out.push('\\');
            out.push('b');
        } else if c == '\u{c}' {
            out.push('\\');
            out.push('f');
        } else {
            let code: u32 = c as u32;
            if code < 32 {
                out.push('\\');
                out.push('u');
                out.push('0');
                out.push('0');
                let hi: u8 = (code / 16) as u8;
                let lo: u8 = (code % 16) as u8;
                let hc: char = if hi < 10 {
                    (48 + hi) as char
                } else {
                    (87 + hi) as char
                };
                let lc: char = if lo < 10 {
                    (48 + lo) as char
                } else {
                    (87 + lo) as char
                };
                out.push(hc);
                out.push(lc);
            } else {
                out.push(c);
            }
        }
        i = i + 1;
        proof {
            lemma_escape_concat(done, seq![cs@[i - 1]]);
            assert(cs@.take(i as int) =~= done + seq![cs@[i - 1]]);
            assert(seq![cs@[i - 1]].drop_first() =~= Seq::<char>::empty());
            assert(spec_escape(Seq::<char>::empty()) =~= Seq::<char>::empty());
            assert(seq![cs@[i - 1]].len() == 1);
            assert(spec_escape(seq![cs@[i - 1]]) == spec_escape_char(seq![cs@[i - 1]][0])
                + spec_escape(seq![cs@[i - 1]].drop_first()));
            assert(spec_escape(seq![cs@[i - 1]]) =~= spec_escape_char(cs@[i - 1]));
            assert(out@ =~= old(out)@ + spec_escape(cs@.take(i as int)));
        }
    }
    proof {
        assert(cs@.take(cs@.len() as int) =~= cs@);
    }
}

/// Strips the literal `lit` at position `pos`, returning the position after
/// it.
fn expect_lit(v: &Vec<char>, pos: usize, lit: &str) -> (r: Option<usize>)
    requires
        pos <= v@.len(),
    ensures
        match r {
            Some(j) => pos <= j <= v@.len() && spec_lit(v@.skip(pos as int), lit@) == Some(
                v@.skip(j as int),
            ),
            None => spec_lit(v@.skip(pos as int), lit@) is None,
        },
{
    if chars_start_with_at(v, pos, lit) {
        let n = lit.unicode_len();
        let total = v.len();
        proof {
            assert(v@.skip(pos as int).len() >= n);
            assert(pos + n <= total);
            assert(v@.skip(pos as int).skip(n as int) =~= v@.skip(pos + n));
        }
        Some(pos + n)
    } else {
        None
    }
}

/// Reads a JSON string body (after its opening quote) starting at `pos`;
/// returns the decoded content and the position after the closing quote.
fn parse_string_at(v: &Vec<char>, pos: usize) -> (r: Option<(Vec<char>, usize)>)
    requires
        pos <= v@.len(),
    ensures
        match r {
            Some(p) => pos <= p.1 <= v@.len() && spec_parse_string(v@.skip(pos as int)) == Some(
                (p.0@, v@.skip(p.1 as int)),
            ),
            None => spec_parse_string(v@.skip(pos as int)) is None,
        },
{
    let mut content: Vec<char> = Vec::new();
    let mut i: usize = pos;
    while i < v.len()
        invariant
            pos <= i <= v@.len(),
            spec_parse_string(v@.skip(i as int)) is Some ==> spec_parse_string(
                v@.skip(pos as int),
            ) == Some(
                (
                    content@ + (spec_parse_string(v@.skip(i as int))->0).0,
                    (spec_parse_string(v@.skip(i as int))->0).1,
                ),
            ),
            spec_parse_string(v@.skip(i as int)) is None ==> spec_parse_string(
                v@.skip(pos as int),
            ) is None,
        decreases v@.len() - i,
    {
        let ghost s_cur = v@.skip(i as int);
        let ghost content0 = content@;
        let c = v[i];
        proof {
            assert(s_cur[0] == c);
        }
        if c == '"' {
            proof {
                assert(s_cur.drop_first() =~= v@.skip(i + 1));
                assert(spec_parse_string(s_cur) == Some((Seq::<char>::empty(), v@.skip(i + 1))));
                assert(content@ + Seq::<char>::empty() =~= content@);
            }
            return Some((content, i + 1));
        } else if c == '\\' {
            if i + 1 >= v.len() {
                proof {
                    assert(s_cur.len() < 2);
                }
                return None;
            }
            let e = v[i + 1];
            proof {
                assert(s_cur[1] == e);
            }
            if e == 'u' {
                if v.len() - i < 6 {
                    proof {
                        assert(s_cur.len() < 6);
                    }
                    return None;
                }
                proof {
                    assert(s_cur.len() >= 6);
                    assert(s_cur[2] == v@[i + 2]);
                    assert(s_cur[3] == v@[i + 3]);
                    assert(s_cur[4] == v@[i + 4]);
                    assert(s_cur[5] == v@[i + 5]);
                }
                if !(v[i + 2] == '0' && v[i + 3] == '0') {
                    return None;
                }
                let h4 = hex_val_exec(v[i + 4]);
                let h5 = hex_val_exec(v[i + 5]);
                if h4 < 0 || h5 < 0 {
                    return None;
                }
                let ch: char = ((h4 * 16 + h5) as u8) as char;
                content.push(ch);
                i = i + 6;
                proof {
                    assert(s_cur.skip(6) =~= v@.skip(i as int));
                    assert(ch == (((spec_hex_val(s_cur[4]) * 16 + spec_hex_val(
                        s_cur[5],
                    )) as u8) as char));
                    if spec_parse_string(v@.skip(i as int)) is Some {
                        let p = spec_parse_string(v@.skip(i as int))->0;
                        assert(spec_parse_string(s_cur) == Some((seq![ch] + p.0, p.1)));
                        assert(content0 + (seq![ch] + p.0) =~= content@ + p.0);
                    }
                }
            } else if e == '"' || e == '\\' || e == '/' || e == 'n' || e == 'r' || e == 't' || e
                == 'b' || e == 'f' {
                let ch: char = if e == '"' {
                    '"'
                } else if e == '\\' {
                    '\\'
                } else if e == '/' {
                    '/'
                } else if e == 'n' {
                    '\n'
                } else if e == 'r' {
                    '\r'
                } else if e == 't' {
                    '\t'
                } else if e == 'b' {
                    '\u{8}'
                } else {
                    '\u{c}'
                };
                content.push(ch);
                i = i + 2;
                proof {
                    assert(s_cur.skip(2) =~= v@.skip(i as int));
                    if spec_parse_string(v@.skip(i as int)) is Some {
                        let p = spec_parse_string(v@.skip(i as int))->0;
                        assert(spec_parse_string(s_cur) == Some((seq![ch] + p.0, p.1)));
                        assert(content0 + (seq![ch] + p.0) =~= content@ + p.0);
                    }
                }
            } else {
                return None;
            }
        } else if (c as u32) < 32 {
            return None;
        } else {
            content.push(c);
            i = i + 1;
            proof {
                assert(s_cur.drop_first() =~= v@.skip(i as int));
                if spec_parse_string(v@.skip(i as int)) is Some {
                    let p = spec_parse_string(v@.skip(i as int))->0;
                    assert(spec_parse_string(s_cur) == Some((seq![c] + p.0, p.1)));
                    assert(content0 + (seq![c] + p.0) =~= content@ + p.0);
                }
            }
        }
    }
    proof {
        assert(v@.skip(i as int).len() == 0);
    }
    None
}

/// Reads an optionally-signed decimal integer starting at `pos`.
fn parse_int_at(v: &Vec<char>, pos: usize) -> (r: Option<(i32, usize)>)
    requires
        pos <= v@.len(),
    ensures
        match r {
            Some(p) => pos <= p.1 <= v@.len() && spec_parse_int(v@.skip(pos as int)) == Some(
                (p.0 as int, v@.skip(p.1 as int)),
            ),
            None => spec_parse_int(v@.skip(pos as int)) is None,
        },
{
    let ghost s = v@.skip(pos as int);
    let neg: bool = pos < v.len() && v[pos] == '-';
    let start: usize = if neg {
        pos + 1
    } else {
        pos
    };
    let ghost t = v@.skip(start as int);
    proof {
        if neg {
            assert(s[0] == '-');
            assert(s.drop_first() =~= t);
        }
    }
    let mut j: usize = start;
    let mut acc: u64 = 0;
    while j < v.len() && is_digit_char(v[j])
        invariant
            pos <= start <= j <= v@.len(),
            t == v@.skip(start as int),
            forall|k: int| start <= k < j ==> is_digit(#[trigger] v@[k]),
            spec_digit_run(t) == (j - start) + spec_digit_run(v@.skip(j as int)),
            acc <= 0x8000_0000u64 ==> acc as int == spec_digits_val(
                v@.subrange(start as int, j as int),
            ),
            acc > 0x8000_0000u64 ==> spec_digits_val(v@.subrange(start as int, j as int))
                > 0x8000_0000,
        decreases v@.len() - j,
    {
        let c = v[j];
        let d: u64 = (c as u32 - 48) as u64;
        let ghost prefix = v@.subrange(start as int, j as int);
        proof {
            assert(v@.skip(j as int)[0] == c);
            assert(v@.skip(j as int).drop_first() =~= v@.skip(j + 1));
            assert(v@.subrange(start as int, j + 1).drop_last() =~= prefix);
            assert(v@.subrange(start as int, j + 1).last() == c);
            assert(spec_digits_val(v@.subrange(start as int, j + 1)) == spec_digits_val(prefix)
                * 10 + d);
        }
        if acc <= 0x8000_0000u64 {
            acc = acc * 10 + d;
        } else {
            proof {
                assert(spec_digits_val(prefix) > 0x8000_0000);
                assert(spec_digits_val(v@.subrange(start as int, j + 1)) > 0x8000_0000);
            }
        }
        j = j + 1;
    }
    proof {
        if j < v@.len() {
            assert(v@.skip(j as int)[0] == v@[j as int]);
            assert(spec_digit_run(v@.skip(j as int)) == 0);
        } else {
            assert(v@.skip(j as int).len() == 0);
        }
        assert(spec_digit_run(t) == j - start);
        assert(t.take((j - start) as int) =~= v@.subrange(start as int, j as int));
        assert(t.skip((j - start) as int) =~= v@.skip(j as int));
    }
    if j == start {
        return None;
    }
    let ghost run_val = spec_digits_val(v@.subrange(start as int, j as int));
    if acc > 0x8000_0000u64 {
        proof {
            assert(run_val > 0x8000_0000);
        }
        return None;
    }
    if neg {
        if acc > 0x8000_0000u64 {
            return None;
        }
        let value: i32 = if acc == 0x8000_0000u64 {
            i32::MIN
        } else {
            -(acc as i32)
        };
        Some((value, j))
    } else {
        if acc > 0x7FFF_FFFFu64 {
            proof {
                assert(run_val > i32::MAX);
            }
            return None;
        }
        Some((acc as i32, j))
    }
}

} // verus!

verus! {

/// Reads one optional string-valued field: when `header` is present it must
/// be followed by a well-formed string body; when it is absent the input is
/// left untouched.
pub open spec fn spec_opt_str_field(s: Seq<char>, header: Seq<char>) -> Option<
    (Option<Seq<char>>, Seq<char>),
> {
    match spec_lit(s, header) {
        Some(s1) => match spec_parse_string(s1) {
            Some(p) => Some((Some(p.0), p.1)),
            None => None,
        },
        None => Some((None, s)),
    }
}

/// Reads one optional integer-valued field.
pub open spec fn spec_opt_int_field(s: Seq<char>, header: Seq<char>) -> Option<
    (Option<int>, Seq<char>),
> {
    match spec_lit(s, header) {
        Some(s1) => match spec_parse_int(s1) {
            Some(p) => Some((Some(p.0), p.1)),
            None => None,
        },
        None => Some((None, s)),
    }
}

/// The canonical JSON text of a session-credentials record: the two
/// mandatory string fields, then each optional field only when present, in
/// declaration order.
pub open spec fn spec_encode_credentials(v: CredentialsView) -> Seq<char> {
    "{\"base_url\":\""@ + (spec_escape(v.base_url) + seq!['"'] + (",\"auth_mode\":\""@ + (
    spec_escape(v.auth_mode) + seq!['"'] + cred_fields_from_user_id(v))))
}

/// Reads back a session-credentials record from its canonical JSON text.
pub open spec fn spec_decode_credentials(s: Seq<char>) -> Option<CredentialsView> {
    match spec_lit(s, "{\"base_url\":\""@) {
        None => None,
        Some(s1) => match spec_parse_string(s1) {
            None => None,
            Some(p1) => match spec_lit(p1.1, ",\"auth_mode\":\""@) {
                None => None,
                Some(s2) => match spec_parse_string(s2) {
                    None => None,
                    Some(p2) => match spec_opt_int_field(p2.1, ",\"user_id\":"@) {
                        None => None,
                        Some(f1) => match spec_opt_str_field(f1.1, ",\"auth_token\":\""@) {
                            None => None,
                            Some(f2) => match spec_opt_str_field(f2.1, ",\"app_token\":\""@) {
                                None => None,
                                Some(f3) => match spec_opt_str_field(f3.1, ",\"username\":\""@) {
                                    None => None,
                                    Some(f4) => match spec_lit(f4.1, "}"@) {
                                        None => None,
                                        Some(s9) => if s9.len() == 0 {
                                            Some(
                                                CredentialsView {
                                                    base_url: p1.0,
                                                    auth_mode: p2.0,
                                                    user_id: f1.0,
                                                    auth_token: f2.0,
                                                    app_token: f3.0,
                                                    username: f4.0,
                                                },
                                            )
                                        } else {
                                            None
                                        },
                                    },
                                },
                            },
                        },
                    },
                },
            },
        },
    }
}

/// The canonical JSON text of a stored username/password record.
pub open spec fn spec_encode_login(v: LoginCredentialsView) -> Seq<char> {
    "{\"username\":\""@ + spec_escape(v.username) + seq!['"'] + ",\"password\":\""@
        + spec_escape(v.password) + seq!['"'] + "}"@
}

/// Reads back a username/password record from its canonical JSON text.
pub open spec fn spec_decode_login(s: Seq<char>) -> Option<LoginCredentialsView> {
    match spec_lit(s, "{\"username\":\""@) {
        None => None,
        Some(s1) => match spec_parse_string(s1) {
            None => None,
            Some(p1) => match spec_lit(p1.1, ",\"password\":\""@) {
                None => None,
                Some(s2) => match spec_parse_string(s2) {
                    None => None,
                    Some(p2) => match spec_lit(p2.1, "}"@) {
                        None => None,
                        Some(s3) => if s3.len() == 0 {
                            Some(LoginCredentialsView { username: p1.0, password: p2.0 })
                        } else {
                            None
                        },
                    },
                },
            },
        },
    }
}

/// The canonical JSON text of a stored app-token record.
pub open spec fn spec_encode_apptoken(v: AppTokenCredentialsView) -> Seq<char> {
    "{\"app_token\":\""@ + spec_escape(v.app_token) + seq!['"'] + ",\"username\":\""@
        + spec_escape(v.username) + seq!['"'] + "}"@
}

/// Reads back an app-token record from its canonical JSON text.
pub open spec fn spec_decode_apptoken(s: Seq<char>) -> Option<AppTokenCredentialsView> {
    match spec_lit(s, "{\"app_token\":\""@) {
        None => None,
        Some(s1) => match spec_parse_string(s1) {
            None => None,
            Some(p1) => match spec_lit(p1.1, ",\"username\":\""@) {
                None => None,
                Some(s2) => match spec_parse_string(s2) {
                    None => None,
                    Some(p2) => match spec_lit(p2.1, "}"@) {
                        None => None,
                        Some(s3) => if s3.len() == 0 {
                            Some(AppTokenCredentialsView { app_token: p1.0, username: p2.0 })
                        } else {
                            None
                        },
                    },
                },
            },
        },
    }
}

} // verus!

verus! {

/// Law: decoding an encoded username/password record yields the record.
pub proof fn lemma_login_round_trip(v: LoginCredentialsView)
    ensures
        spec_decode_login(spec_encode_login(v)) == Some(v),
{
    let enc = spec_encode_login(v);
    let r2 = "}"@;
    let t2 = spec_escape(v.password) + seq!['"'] + r2;
    let r1 = ",\"password\":\""@ + t2;
    let t1 = spec_escape(v.username) + seq!['"'] + r1;
    assert(enc =~= "{\"username\":\""@ + t1);
    lemma_lit_prefix("{\"username\":\""@, t1);
    lemma_parse_escaped(v.username, r1);
    assert(r1 =~= ",\"password\":\""@ + t2);
    lemma_lit_prefix(",\"password\":\""@, t2);
    lemma_parse_escaped(v.password, r2);
    assert(r2 =~= "}"@ + Seq::<char>::empty());
    lemma_lit_prefix("}"@, Seq::<char>::empty());
}

/// Law: decoding an encoded app-token record yields the record.
pub proof fn lemma_apptoken_round_trip(v: AppTokenCredentialsView)
    ensures
        spec_decode_apptoken(spec_encode_apptoken(v)) == Some(v),
{
    let enc = spec_encode_apptoken(v);
    let r2 = "}"@;
    let t2 = spec_escape(v.username) + seq!['"'] + r2;
    let r1 = ",\"username\":\""@ + t2;
    let t1 = spec_escape(v.app_token) + seq!['"'] + r1;
    assert(enc =~= "{\"app_token\":\""@ + t1);
    lemma_lit_prefix("{\"app_token\":\""@, t1);
    lemma_parse_escaped(v.app_token, r1);
    assert(r1 =~= ",\"username\":\""@ + t2);
    lemma_lit_prefix(",\"username\":\""@, t2);
    lemma_parse_escaped(v.username, r2);
    assert(r2 =~= "}"@ + Seq::<char>::empty());
    lemma_lit_prefix("}"@, Seq::<char>::empty());
}

/// The optional-field portion of an encoded record, from `user_id` on.
pub open spec fn cred_field_user_id(v: CredentialsView) -> Seq<char> {
    match v.user_id {
        Some(n) => ",\"user_id\":"@ + spec_int_chars(n),
        None => Seq::<char>::empty(),
    }
}

pub open spec fn cred_field_auth_token(v: CredentialsView) -> Seq<char> {
    match v.auth_token {
        Some(t) => ",\"auth_token\":\""@ + spec_escape(t) + seq!['"'],
        None => Seq::<char>::empty(),
    }
}

pub open spec fn cred_field_app_token(v: CredentialsView) -> Seq<char> {
    match v.app_token {
        Some(t) => ",\"app_token\":\""@ + spec_escape(t) + seq!['"'],
        None => Seq::<char>::empty(),
    }
}

pub open spec fn cred_field_username(v: CredentialsView) -> Seq<char> {
    match v.username {
        Some(t) => ",\"username\":\""@ + spec_escape(t) + seq!['"'],
        None => Seq::<char>::empty(),
    }
}

pub open spec fn cred_fields_from_username(v: CredentialsView) -> Seq<char> {
    cred_field_username(v) + "}"@
}

pub open spec fn cred_fields_from_app_token(v: CredentialsView) -> Seq<char> {
    cred_field_app_token(v) + cred_fields_from_username(v)
}

pub open spec fn cred_fields_from_auth_token(v: CredentialsView) -> Seq<char> {
    cred_field_auth_token(v) + cred_fields_from_app_token(v)
}

pub open spec fn cred_fields_from_user_id(v: CredentialsView) -> Seq<char> {
    cred_field_user_id(v) + cred_fields_from_auth_token(v)
}

proof fn lemma_cred_slot_un(v: CredentialsView)
    ensures
        spec_opt_str_field(cred_fields_from_username(v), ",\"username\":\""@) == Some((v.username, "}"@)),
{
    reveal_strlit(",\"username\":\"");
    reveal_strlit("}");
    let h_un = ",\"username\":\""@;
    let close = "}"@;
    assert(h_un.len() == 13 && close.len() == 1);
    match v.username {
        Some(t) => {
            assert(cred_fields_from_username(v) =~= h_un + (spec_escape(t) + seq!['"'] + close));
            lemma_lit_prefix(h_un, spec_escape(t) + seq!['"'] + close);
            lemma_parse_escaped(t, close);
        },
        None => {
            assert(cred_fields_from_username(v) =~= close);
            assert(cred_fields_from_username(v).len() < h_un.len());
        },
    }
}

proof fn lemma_cred_slot_ap(v: CredentialsView)
    ensures
        spec_opt_str_field(cred_fields_from_app_token(v), ",\"app_token\":\""@) == Some(
            (v.app_token, cred_fields_from_username(v)),
        ),
{
    reveal_strlit(",\"app_token\":\"");
    reveal_strlit(",\"username\":\"");
    reveal_strlit("}");
    let h_ap = ",\"app_token\":\""@;
    let h_un = ",\"username\":\""@;
    let close = "}"@;
    assert(h_ap.len() == 14 && h_un.len() == 13 && close.len() == 1);
    assert(h_ap[2] == 'a' && h_un[2] == 'u');
    match v.app_token {
        Some(t) => {
            assert(cred_fields_from_app_token(v) =~= h_ap + (spec_escape(t) + seq!['"'] + cred_fields_from_username(v)));
            lemma_lit_prefix(h_ap, spec_escape(t) + seq!['"'] + cred_fields_from_username(v));
            lemma_parse_escaped(t, cred_fields_from_username(v));
        },
        None => {
            assert(cred_fields_from_app_token(v) =~= cred_fields_from_username(v));
            match v.username {
                Some(t) => {
                    assert(cred_fields_from_app_token(v)[2] == h_un[2]);
                    lemma_lit_mismatch(cred_fields_from_app_token(v), h_ap, 2);
                },
                None => {
                    assert(cred_fields_from_app_token(v) =~= close);
                    assert(cred_fields_from_app_token(v).len() < h_ap.len());
                },
            }
        },
    }
}

proof fn lemma_cred_slot_at(v: CredentialsView)
    ensures
        spec_opt_str_field(cred_fields_from_auth_token(v), ",\"auth_token\":\""@) == Some(
            (v.auth_token, cred_fields_from_app_token(v)),
        ),
{
    reveal_strlit(",\"auth_token\":\"");
    reveal_strlit(",\"app_token\":\"");
    reveal_strlit(",\"username\":\"");
    reveal_strlit("}");
    let h_at = ",\"auth_token\":\""@;
    let h_ap = ",\"app_token\":\""@;
    let h_un = ",\"username\":\""@;
    let close = "}"@;
    assert(h_at.len() == 15 && h_ap.len() == 14 && h_un.len() == 13 && close.len() == 1);
    assert(h_at[3] == 'u' && h_ap[3] == 'p');
    assert(h_at[2] == 'a' && h_un[2] == 'u');
    match v.auth_token {
        Some(t) => {
            assert(cred_fields_from_auth_token(v) =~= h_at + (spec_escape(t) + seq!['"'] + cred_fields_from_app_token(v)));
            lemma_lit_prefix(h_at, spec_escape(t) + seq!['"'] + cred_fields_from_app_token(v));
            lemma_parse_escaped(t, cred_fields_from_app_token(v));
        },
        None => {
            assert(cred_fields_from_auth_token(v) =~= cred_fields_from_app_token(v));
            match v.app_token {
                Some(t) => {
                    assert(cred_fields_from_auth_token(v)[3] == h_ap[3]);
                    lemma_lit_mismatch(cred_fields_from_auth_token(v), h_at, 3);
                },
                None => {
                    assert(cred_fields_from_app_token(v) =~= cred_fields_from_username(v));
                    match v.username {
                        Some(t) => {
                            assert(cred_fields_from_auth_token(v)[2] == h_un[2]);
                            lemma_lit_mismatch(cred_fields_from_auth_token(v), h_at, 2);
                        },
                        None => {
                            assert(cred_fields_from_auth_token(v) =~= close);
                            assert(cred_fields_from_auth_token(v).len() < h_at.len());
                        },
                    }
                },
            }
        },
    }
}

proof fn lemma_cred_slot_uid(v: CredentialsView)
    requires
        v.wf(),
    ensures
        spec_opt_int_field(cred_fields_from_user_id(v), ",\"user_id\":"@) == Some((v.user_id, cred_fields_from_auth_token(v))),
{
    reveal_strlit(",\"user_id\":");
    reveal_strlit(",\"auth_token\":\"");
    reveal_strlit(",\"app_token\":\"");
    reveal_strlit(",\"username\":\"");
    reveal_strlit("}");
    let h_uid = ",\"user_id\":"@;
    let h_at = ",\"auth_token\":\""@;
    let h_ap = ",\"app_token\":\""@;
    let h_un = ",\"username\":\""@;
    let close = "}"@;
    assert(h_uid.len() == 11 && h_at.len() == 15 && h_ap.len() == 14 && h_un.len() == 13
        && close.len() == 1);
    assert(h_uid[2] == 'u' && h_uid[6] == '_');
    assert(h_at[2] == 'a' && h_ap[2] == 'a' && h_un[2] == 'u' && h_un[6] == 'n');
    assert(h_at[0] == ',' && h_ap[0] == ',' && h_un[0] == ',' && close[0] == '}');
    let s5 = cred_fields_from_auth_token(v);
    match v.user_id {
        Some(n) => {
            assert(cred_fields_from_user_id(v) =~= h_uid + (spec_int_chars(n) + s5));
            lemma_lit_prefix(h_uid, spec_int_chars(n) + s5);
            assert(s5.len() > 0 && !is_digit(s5[0])) by {
                match v.auth_token {
                    Some(t) => { assert(s5[0] == h_at[0]); },
                    None => {
                        assert(s5 =~= cred_fields_from_app_token(v));
                        match v.app_token {
                            Some(t) => { assert(cred_fields_from_app_token(v)[0] == h_ap[0]); },
                            None => {
                                assert(cred_fields_from_app_token(v) =~= cred_fields_from_username(v));
                                match v.username {
                                    Some(t) => { assert(cred_fields_from_username(v)[0] == h_un[0]); },
                                    None => { assert(cred_fields_from_username(v) =~= close); },
                                }
                            },
                        }
                    },
                }
            }
            lemma_parse_int_round_trip(n, s5);
        },
        None => {
            assert(cred_fields_from_user_id(v) =~= s5);
            match v.auth_token {
                Some(t) => {
                    assert(cred_fields_from_user_id(v)[2] == h_at[2]);
                    lemma_lit_mismatch(cred_fields_from_user_id(v), h_uid, 2);
                },
                None => {
                    assert(s5 =~= cred_fields_from_app_token(v));
                    match v.app_token {
                        Some(t) => {
                            assert(cred_fields_from_user_id(v)[2] == h_ap[2]);
                            lemma_lit_mismatch(cred_fields_from_user_id(v), h_uid, 2);
                        },
                        None => {
                            assert(cred_fields_from_app_token(v) =~= cred_fields_from_username(v));
                            match v.username {
                                Some(t) => {
                                    assert(cred_fields_from_user_id(v)[6] == h_un[6]);
                                    lemma_lit_mismatch(cred_fields_from_user_id(v), h_uid, 6);
                                },
                                None => {
                                    assert(cred_fields_from_user_id(v) =~= close);
                                    assert(cred_fields_from_user_id(v).len() < h_uid.len());
                                },
                            }
                        },
                    }
                },
            }
        },
    }
}

/// Law: decoding an encoded session-credentials record yields the record.
#[verifier::rlimit(100)]
#[verifier::spinoff_prover]
pub proof fn lemma_credentials_round_trip(v: CredentialsView)
    requires
        v.wf(),
    ensures
        spec_decode_credentials(spec_encode_credentials(v)) == Some(v),
{
    let s4 = cred_fields_from_user_id(v);
    let t2 = spec_escape(v.auth_mode) + seq!['"'] + s4;
    let r1 = ",\"auth_mode\":\""@ + t2;
    let t1 = spec_escape(v.base_url) + seq!['"'] + r1;
    lemma_lit_prefix("{\"base_url\":\""@, t1);
    lemma_parse_escaped(v.base_url, r1);
    lemma_lit_prefix(",\"auth_mode\":\""@, t2);
    lemma_parse_escaped(v.auth_mode, s4);
    lemma_cred_slot_uid(v);
    lemma_cred_slot_at(v);
    lemma_cred_slot_ap(v);
    lemma_cred_slot_un(v);
    assert("}"@ =~= "}"@ + Seq::<char>::empty());
    lemma_lit_prefix("}"@, Seq::<char>::empty());
}

} // verus!

verus! {

/// Renders a session-credentials record as its canonical JSON text.
#[verifier::rlimit(100)]
pub fn credentials_to_json(c: &Credentials) -> (r: String)
    ensures
        r@ == spec_encode_credentials(c@),
{
    let mut out: Vec<char> = Vec::new();
    append_str(&mut out, "{\"base_url\":\"");
    push_escaped(&mut out, c.base_url.as_str());
    out.push('"');
    append_str(&mut out, ",\"auth_mode\":\"");
    push_escaped(&mut out, c.auth_mode.as_str());
    out.push('"');
    let ghost g0 = "{\"base_url\":\""@ + spec_escape(c.base_url@) + seq!['"']
        + ",\"auth_mode\":\""@ + spec_escape(c.auth_mode@) + seq!['"'];
    proof {
        assert(out@ =~= g0);
    }
    let ghost fu = cred_field_user_id(c@);
    match c.user_id {
        Some(n) => {
            append_str(&mut out, ",\"user_id\":");
            let d = i32_chars(n);
            append_chars(&mut out, &d);
            proof {
                assert(out@ =~= g0 + fu);
            }
        },
        None => {
            proof {
                assert(out@ =~= g0 + fu);
            }
        },
    }
    let ghost fa = cred_field_auth_token(c@);
    match &c.auth_token {
        Some(t) => {
            append_str(&mut out, ",\"auth_token\":\"");
            push_escaped(&mut out, t.as_str());
            out.push('"');
            proof {
                assert(out@ =~= g0 + fu + fa);
            }
        },
        None => {
            proof {
                assert(out@ =~= g0 + fu + fa);
            }
        },
    }
    let ghost fp = cred_field_app_token(c@);
    match &c.app_token {
        Some(t) => {
            append_str(&mut out, ",\"app_token\":\"");
            push_escaped(&mut out, t.as_str());
            out.push('"');
            proof {
                assert(out@ =~= g0 + fu + fa + fp);
            }
        },
        None => {
            proof {
                assert(out@ =~= g0 + fu + fa + fp);
            }
        },
    }
    let ghost fn_ = cred_field_username(c@);
    match &c.username {
        Some(t) => {
            append_str(&mut out, ",\"username\":\"");
            push_escaped(&mut out, t.as_str());
            out.push('"');
            proof {
                assert(out@ =~= g0 + fu + fa + fp + fn_);
            }
        },
        None => {
            proof {
                assert(out@ =~= g0 + fu + fa + fp + fn_);
            }
        },
    }
    append_str(&mut out, "}");
    proof {
        assert(out@ =~= g0 + fu + fa + fp + fn_ + "}"@);
        assert(cred_fields_from_user_id(c@) =~= fu + (fa + (fp + (fn_ + "}"@))));
        assert(spec_encode_credentials(c@) =~= g0 + cred_fields_from_user_id(c@));
        assert(out@ =~= spec_encode_credentials(c@));
    }
    chars_to_string(&out)
}

/// Renders a username/password record as its canonical JSON text.
pub fn login_credentials_to_json(c: &LoginCredentials) -> (r: String)
    ensures
        r@ == spec_encode_login(c@),
{
    let mut out: Vec<char> = Vec::new();
    append_str(&mut out, "{\"username\":\"");
    push_escaped(&mut out, c.username.as_str());
    out.push('"');
    append_str(&mut out, ",\"password\":\"");
    push_escaped(&mut out, c.password.as_str());
    out.push('"');
    append_str(&mut out, "}");
    proof {
        assert(out@ =~= spec_encode_login(c@));
    }
    chars_to_string(&out)
}

/// Renders an app-token record as its canonical JSON text.
pub fn apptoken_credentials_to_json(c: &AppTokenCredentials) -> (r: String)
    ensures
        r@ == spec_encode_apptoken(c@),
{
    let mut out: Vec<char> = Vec::new();
    append_str(&mut out, "{\"app_token\":\"");
    push_escaped(&mut out, c.app_token.as_str());
    out.push('"');
    append_str(&mut out, ",\"username\":\"");
    push_escaped(&mut out, c.username.as_str());
    out.push('"');
    append_str(&mut out, "}");
    proof {
        assert(out@ =~= spec_encode_apptoken(c@));
    }
    chars_to_string(&out)
}

fn decode_error(what: &str) -> (r: String)
    ensures
        r@ == "Failed to deserialize "@ + what@,
{
    let mut out: Vec<char> = Vec::new();
    append_str(&mut out, "Failed to deserialize ");
    append_str(&mut out, what);
    chars_to_string(&out)
}

/// Reads a session-credentials record back from its canonical JSON text.
#[verifier::rlimit(100)]
pub fn credentials_from_json(s: &str) -> (r: Result<Credentials, String>)
    ensures
        match spec_decode_credentials(s@) {
            Some(cv) => r is Ok && r->Ok_0@ == cv,
            None => r is Err,
        },
        r is Err ==> r->Err_0@ == "Failed to deserialize "@ + "credentials"@,
{
    let v = str_to_chars(s);
    proof {
        assert(v@.skip(0) =~= v@);
    }
    let i1 = match expect_lit(&v, 0, "{\"base_url\":\"") {
        Some(i) => i,
        None => {
            return Err(decode_error("credentials"));
        },
    };
    let (base, i2) = match parse_string_at(&v, i1) {
        Some(p) => p,
        None => {
            return Err(decode_error("credentials"));
        },
    };
    let i3 = match expect_lit(&v, i2, ",\"auth_mode\":\"") {
        Some(i) => i,
        None => {
            return Err(decode_error("credentials"));
        },
    };
    let (mode, i4) = match parse_string_at(&v, i3) {
        Some(p) => p,
        None => {
            return Err(decode_error("credentials"));
        },
    };
    let (uid, i5) = match expect_lit(&v, i4, ",\"user_id\":") {
        Some(j) => match parse_int_at(&v, j) {
            Some(p) => (Some(p.0), p.1),
            None => {
                return Err(decode_error("credentials"));
            },
        },
        None => (None, i4),
    };
    let (at, i6) = match expect_lit(&v, i5, ",\"auth_token\":\"") {
        Some(j) => match parse_string_at(&v, j) {
            Some(p) => (Some(p.0), p.1),
            None => {
                return Err(decode_error("credentials"));
            },
        },
        None => (None, i5),
    };
    let (ap, i7) = match expect_lit(&v, i6, ",\"app_token\":\"") {
        Some(j) => match parse_string_at(&v, j) {
            Some(p) => (Some(p.0), p.1),
            None => {
                return Err(decode_error("credentials"));
            },
        },
        None => (None, i6),
    };
    let (un, i8) = match expect_lit(&v, i7, ",\"username\":\"") {
        Some(j) => match parse_string_at(&v, j) {
            Some(p) => (Some(p.0), p.1),
            None => {
                return Err(decode_error("credentials"));
            },
        },
        None => (None, i7),
    };
    let i9 = match expect_lit(&v, i8, "}") {
        Some(i) => i,
        None => {
            return Err(decode_error("credentials"));
        },
    };
    if i9 != v.len() {
        return Err(decode_error("credentials"));
    }
    let result = Credentials {
        base_url: chars_to_string(&base),
        auth_mode: chars_to_string(&mode),
        user_id: uid,
        auth_token: match at {
            Some(t) => Some(chars_to_string(&t)),
            None => None,
        },
        app_token: match ap {
            Some(t) => Some(chars_to_string(&t)),
            None => None,
        },
        username: match un {
            Some(t) => Some(chars_to_string(&t)),
            None => None,
        },
    };
    Ok(result)
}

/// Reads a username/password record back from its canonical JSON text.
pub fn login_credentials_from_json(s: &str) -> (r: Result<LoginCredentials, String>)
    ensures
        match spec_decode_login(s@) {
            Some(cv) => r is Ok && r->Ok_0@ == cv,
            None => r is Err,
        },
        r is Err ==> r->Err_0@ == "Failed to deserialize "@ + "login credentials"@,
{
    let v = str_to_chars(s);
    proof {
        assert(v@.skip(0) =~= v@);
    }
    let i1 = match expect_lit(&v, 0, "{\"username\":\"") {
        Some(i) => i,
        None => {
            return Err(decode_error("login credentials"));
        },
    };
    let (uname, i2) = match parse_string_at(&v, i1) {
        Some(p) => p,
        None => {
            return Err(decode_error("login credentials"));
        },
    };
    let i3 = match expect_lit(&v, i2, ",\"password\":\"") {
        Some(i) => i,
        None => {
            return Err(decode_error("login credentials"));
        },
    };
    let (pword, i4) = match parse_string_at(&v, i3) {
        Some(p) => p,
        None => {
            return Err(decode_error("login credentials"));
        },
    };
    let i5 = match expect_lit(&v, i4, "}") {
        Some(i) => i,
        None => {
            return Err(decode_error("login credentials"));
        },
    };
    if i5 != v.len() {
        return Err(decode_error("login credentials"));
    }
    Ok(LoginCredentials { username: chars_to_string(&uname), password: chars_to_string(&pword) })
}

/// Reads an app-token record back from its canonical JSON text.
pub fn apptoken_credentials_from_json(s: &str) -> (r: Result<AppTokenCredentials, String>)
    ensures
        match spec_decode_apptoken(s@) {
            Some(cv) => r is Ok && r->Ok_0@ == cv,
            None => r is Err,
        },
        r is Err ==> r->Err_0@ == "Failed to deserialize "@ + "app token credentials"@,
{
    let v = str_to_chars(s);
    proof {
        assert(v@.skip(0) =~= v@);
    }
    let i1 = match expect_lit(&v, 0, "{\"app_token\":\"") {
        Some(i) => i,
        None => {
            return Err(decode_error("app token credentials"));
        },
    };
    let (tok, i2) = match parse_string_at(&v, i1) {
        Some(p) => p,
        None => {
            return Err(decode_error("app token credentials"));
        },
    };
    let i3 = match expect_lit(&v, i2, ",\"username\":\"") {
        Some(i) => i,
        None => {
            return Err(decode_error("app token credentials"));
        },
    };
    let (uname, i4) = match parse_string_at(&v, i3) {
        Some(p) => p,
        None => {
            return Err(decode_error("app token credentials"));
        },
    };
    let i5 = match expect_lit(&v, i4, "}") {
        Some(i) => i,
        None => {
            return Err(decode_error("app token credentials"));
        },
    };
    if i5 != v.len() {
        return Err(decode_error("app token credentials"));
    }
    Ok(AppTokenCredentials { app_token: chars_to_string(&tok), username: chars_to_string(&uname) })
}

} // verus!
