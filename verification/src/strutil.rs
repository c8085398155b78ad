//! Character-sequence utilities shared by the URL builder, the version
//! comparator and the credential codec: conversions between `str` and
//! `Vec<char>`, prefix/suffix tests, and decimal rendering of integers.

use vstd::prelude::*;

verus! {

/// Collects the characters of a string slice into a vector.
pub fn str_to_chars(s: &str) -> (r: Vec<char>)
    ensures
        r@ == s@,
{
    let len = s.unicode_len();
    let mut v: Vec<char> = Vec::new();
    let mut i: usize = 0;
    while i < len
        invariant
            i <= len,
            len == s@.len(),
            v@ == s@.subrange(0, i as int),
        decreases len - i,
    {
        v.push(s.get_char(i));
        assert(v@ =~= s@.subrange(0, i + 1 as int));
        i = i + 1;
    }
    proof {
        assert(v@ =~= s@);
    }
    v
}

/// Relies on `String: FromIterator<char>`: collecting an iterator of
/// characters yields the string of exactly those characters in order.
#[verifier::external_body]
pub fn chars_to_string(v: &Vec<char>) -> (r: String)
    ensures
        r@ == v@,
{
    v.iter().collect()
}

/// `s` ends with `suffix`.
pub open spec fn spec_ends_with(s: Seq<char>, suffix: Seq<char>) -> bool {
    s.len() >= suffix.len() && s.subrange(s.len() - suffix.len(), s.len() as int) == suffix
}

/// `s` starts with `prefix`.
pub open spec fn spec_starts_with(s: Seq<char>, prefix: Seq<char>) -> bool {
    s.len() >= prefix.len() && s.subrange(0, prefix.len() as int) == prefix
}

/// Suffix test on character vectors, against a literal pattern.
pub fn chars_end_with(v: &Vec<char>, suffix: &str) -> (r: bool)
    ensures
        r == spec_ends_with(v@, suffix@),
{
    let n = suffix.unicode_len();
    if v.len() < n {
        return false;
    }
    let off = v.len() - n;
    let mut k: usize = 0;
    while k < n
        invariant
            k <= n,
            n == suffix@.len(),
            off == v@.len() - n,
            v@.len() >= n,
            off + n <= usize::MAX,
            forall|j: int| 0 <= j < k ==> v@[off + j] == suffix@[j],
        decreases n - k,
    {
        if v[off + k] != suffix.get_char(k) {
            assert(v@.subrange(v@.len() - n, v@.len() as int)[k as int] != suffix@[k as int]);
            return false;
        }
        k = k + 1;
    }
    proof {
        assert(v@.subrange(v@.len() - n, v@.len() as int) =~= suffix@);
    }
    true
}

/// Prefix test at an offset: does `v@.skip(i)` start with `prefix`?
pub fn chars_start_with_at(v: &Vec<char>, i: usize, prefix: &str) -> (r: bool)
    requires
        i <= v@.len(),
    ensures
        r == spec_starts_with(v@.skip(i as int), prefix@),
{
    let n = prefix.unicode_len();
    if v.len() - i < n {
        return false;
    }
    let mut k: usize = 0;
    while k < n
        invariant
            k <= n,
            n == prefix@.len(),
            i + n <= v@.len(),
            i + n <= usize::MAX,
            forall|j: int| 0 <= j < k ==> v@[i + j] == prefix@[j],
        decreases n - k,
    {
        if v[i + k] != prefix.get_char(k) {
            assert(v@.skip(i as int).subrange(0, n as int)[k as int] != prefix@[k as int]);
            return false;
        }
        k = k + 1;
    }
    proof {
        assert(v@.skip(i as int).subrange(0, n as int) =~= prefix@);
    }
    true
}

/// A concatenation starts with its left part.
pub proof fn lemma_starts_with_concat(p: Seq<char>, t: Seq<char>)
    ensures
        spec_starts_with(p + t, p),
{
    assert((p + t).subrange(0, p.len() as int) =~= p);
}

/// Strips every trailing `'/'`, as `str::trim_end_matches('/')` does.
pub open spec fn spec_trim_trailing_slashes(s: Seq<char>) -> Seq<char>
    decreases s.len(),
{
    if s.len() > 0 && s[s.len() - 1] == '/' {
        spec_trim_trailing_slashes(s.drop_last())
    } else {
        s
    }
}

/// Removes all trailing `'/'` characters.
pub fn trim_trailing_slashes(s: Vec<char>) -> (r: Vec<char>)
    ensures
        r@ == spec_trim_trailing_slashes(s@),
{
    let mut v = s;
    while v.len() > 0 && v[v.len() - 1] == '/'
        invariant
            spec_trim_trailing_slashes(v@) == spec_trim_trailing_slashes(s@),
        decreases v.len(),
    {
        let ghost pre = v@;
        v.pop();
        proof {
            assert(v@ =~= pre.drop_last());
        }
    }
    v
}

/// A sequence that ends in a character other than `'/'` is already trimmed.
pub proof fn lemma_trim_no_slash(s: Seq<char>)
    requires
        s.len() == 0 || s[s.len() - 1] != '/',
    ensures
        spec_trim_trailing_slashes(s) == s,
{
}

/// The decimal digit character for `d` in `0..10`.
pub open spec fn digit_char(d: int) -> char {
    ((48 + d) as u8) as char
}

/// `c` is a decimal digit.
pub open spec fn is_digit(c: char) -> bool {
    48 <= c as u32 <= 57
}

/// The value of a sequence of decimal digits, most significant first.
pub open spec fn spec_digits_val(s: Seq<char>) -> int
    decreases s.len(),
{
    if s.len() == 0 {
        0
    } else {
        spec_digits_val(s.drop_last()) * 10 + (s[s.len() - 1] as u32 - 48)
    }
}

/// `s` is a non-empty run of decimal digits.
pub open spec fn all_digits(s: Seq<char>) -> bool {
    s.len() > 0 && forall|i: int| 0 <= i < s.len() ==> is_digit(#[trigger] s[i])
}

/// The value of a digit sequence is never negative.
pub proof fn lemma_digits_val_nonneg(s: Seq<char>)
    requires
        forall|i: int| 0 <= i < s.len() ==> is_digit(#[trigger] s[i]),
    ensures
        spec_digits_val(s) >= 0,
    decreases s.len(),
{
    if s.len() > 0 {
        lemma_digits_val_nonneg(s.drop_last());
    }
}

/// A prefix of a digit sequence never has a larger value than the whole.
pub proof fn lemma_digits_val_prefix(s: Seq<char>, k: int)
    requires
        forall|i: int| 0 <= i < s.len() ==> is_digit(#[trigger] s[i]),
        0 <= k <= s.len(),
    ensures
        spec_digits_val(s.take(k)) <= spec_digits_val(s),
    decreases s.len() - k,
{
    if k < s.len() {
        lemma_digits_val_prefix(s, k + 1);
        let t = s.take(k + 1);
        assert(t.drop_last() =~= s.take(k));
        lemma_digits_val_nonneg(s.take(k));
        assert(spec_digits_val(t) == spec_digits_val(s.take(k)) * 10 + (t[k] as u32 - 48));
        assert(spec_digits_val(s.take(k)) <= spec_digits_val(s.take(k + 1)));
    } else {
        assert(s.take(k) =~= s);
    }
}

/// The rendering of a natural number has the value it renders.
pub proof fn lemma_nat_chars_val(n: nat)
    ensures
        spec_digits_val(spec_nat_chars(n)) == n,
    decreases n,
{
    if n < 10 {
        assert(spec_nat_chars(n) == seq![digit_char(n as int)]);
        assert(seq![digit_char(n as int)].drop_last() =~= Seq::<char>::empty());
        assert(digit_char(n as int) as u32 == 48 + n);
        assert(spec_digits_val(Seq::<char>::empty()) == 0);
        assert(spec_digits_val(seq![digit_char(n as int)]) == spec_digits_val(
            seq![digit_char(n as int)].drop_last(),
        ) * 10 + (seq![digit_char(n as int)][0] as u32 - 48));
    } else {
        lemma_nat_chars_val(n / 10);
        assert(spec_nat_chars(n).drop_last() =~= spec_nat_chars(n / 10));
        assert(spec_nat_chars(n).last() == digit_char((n % 10) as int));
        assert(digit_char((n % 10) as int) as u32 == 48 + (n % 10));
        assert(spec_digits_val(spec_nat_chars(n)) == (n / 10) * 10 + (n % 10));
    }
}

/// The decimal rendering of a natural number, most significant digit first.
pub open spec fn spec_nat_chars(n: nat) -> Seq<char>
    decreases n,
{
    if n < 10 {
        seq![digit_char(n as int)]
    } else {
        spec_nat_chars(n / 10) + seq![digit_char((n % 10) as int)]
    }
}

/// The decimal rendering of a signed number: a `'-'` sign when negative.
pub open spec fn spec_int_chars(n: int) -> Seq<char> {
    if n < 0 {
        seq!['-'] + spec_nat_chars((-n) as nat)
    } else {
        spec_nat_chars(n as nat)
    }
}

/// Every character of a decimal rendering is a digit.
pub proof fn lemma_nat_chars_digits(n: nat)
    ensures
        forall|i: int| 0 <= i < spec_nat_chars(n).len() ==> is_digit(#[trigger] spec_nat_chars(n)[i]),
    decreases n,
{
    if n < 10 {
        assert(is_digit(digit_char(n as int)));
    } else {
        lemma_nat_chars_digits(n / 10);
        assert(is_digit(digit_char((n % 10) as int)));
        assert forall|i: int| 0 <= i < spec_nat_chars(n).len() implies is_digit(
            #[trigger] spec_nat_chars(n)[i],
        ) by {
            if i < spec_nat_chars(n / 10).len() {
                assert(spec_nat_chars(n)[i] == spec_nat_chars(n / 10)[i]);
            } else {
                assert(spec_nat_chars(n)[i] == digit_char((n % 10) as int));
            }
        }
    }
}

/// Renders `n` in decimal.
pub fn u32_chars(n: u32) -> (r: Vec<char>)
    ensures
        r@ == spec_nat_chars(n as nat),
{
    let mut rev: Vec<char> = Vec::new();
    let mut m: u32 = n;
    if m < 10 {
        let mut r: Vec<char> = Vec::new();
        r.push((48 + (m as u8)) as char);
        proof {
            assert(r@ =~= spec_nat_chars(n as nat));
        }
        return r;
    }
    while m >= 10
        invariant
            spec_nat_chars(n as nat) == spec_nat_chars(m as nat) + rev@.reverse(),
        decreases m,
    {
        let d: u8 = (m % 10) as u8;
        let ghost prev = rev@;
        rev.push((48 + d) as char);
        m = m / 10;
        proof {
            assert(rev@.reverse() =~= seq![digit_char(d as int)] + prev.reverse());
            assert(spec_nat_chars(n as nat) =~= spec_nat_chars(m as nat) + rev@.reverse());
        }
    }
    let mut r: Vec<char> = Vec::new();
    r.push((48 + (m as u8)) as char);
    proof {
        assert(r@ =~= spec_nat_chars(m as nat));
    }
    let mut k: usize = rev.len();
    while k > 0
        invariant
            k <= rev@.len(),
            r@ == spec_nat_chars(m as nat) + rev@.reverse().take(rev@.len() - k),
        decreases k,
    {
        k = k - 1;
        let ghost pre = r@;
        r.push(rev[k]);
        proof {
            assert(rev@.reverse()[rev@.len() - k - 1] == rev@[k as int]);
            assert(r@ =~= spec_nat_chars(m as nat) + rev@.reverse().take(rev@.len() - k));
        }
    }
    proof {
        assert(rev@.reverse().take(rev@.len() as int) =~= rev@.reverse());
    }
    r
}

/// Renders a signed 32-bit number in decimal.
pub fn i32_chars(n: i32) -> (r: Vec<char>)
    ensures
        r@ == spec_int_chars(n as int),
{
    if n >= 0 {
        u32_chars(n as u32)
    } else {
        let m: u32 = (-(n as i64)) as u32;
        let mut r: Vec<char> = Vec::new();
        r.push('-');
        let digits = u32_chars(m);
        let mut k: usize = 0;
        while k < digits.len()
            invariant
                k <= digits@.len(),
                r@ == seq!['-'] + digits@.take(k as int),
            decreases digits@.len() - k,
        {
            let ghost pre = r@;
            r.push(digits[k]);
            k = k + 1;
            proof {
                assert(r@ =~= seq!['-'] + digits@.take(k as int));
            }
        }
        proof {
            assert(digits@.take(digits@.len() as int) =~= digits@);
            assert(r@ =~= spec_int_chars(n as int));
        }
        r
    }
}

/// The first `n` characters of `v`, as a fresh vector.
pub fn chars_take(v: &Vec<char>, n: usize) -> (r: Vec<char>)
    requires
        n <= v@.len(),
    ensures
        r@ == v@.take(n as int),
{
    let mut r: Vec<char> = Vec::new();
    let mut k: usize = 0;
    while k < n
        invariant
            k <= n <= v@.len(),
            r@ == v@.take(k as int),
        decreases n - k,
    {
        r.push(v[k]);
        k = k + 1;
        proof {
            assert(r@ =~= v@.take(k as int));
        }
    }
    r
}

/// Appends all of `tail` to `v`.
pub fn append_chars(v: &mut Vec<char>, tail: &Vec<char>)
    ensures
        final(v)@ == old(v)@ + tail@,
{
    let mut k: usize = 0;
    while k < tail.len()
        invariant
            k <= tail@.len(),
            v@ == old(v)@ + tail@.take(k as int),
        decreases tail@.len() - k,
    {
        let ghost pre = v@;
        v.push(tail[k]);
        k = k + 1;
        proof {
            assert(v@ =~= old(v)@ + tail@.take(k as int));
        }
    }
    proof {
        assert(old(v)@ + tail@.take(tail@.len() as int) =~= old(v)@ + tail@);
    }
}

/// Appends the characters of a string slice to `v`.
pub fn append_str(v: &mut Vec<char>, tail: &str)
    ensures
        final(v)@ == old(v)@ + tail@,
{
    let t = str_to_chars(tail);
    append_chars(v, &t);
}

} // verus!
