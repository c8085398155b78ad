//! Version comparison and the decision logic of the release check: a
//! best-effort three-component numeric comparison of version strings, and
//! the mapping from a release-API response to a `VersionInfo`.

use vstd::prelude::*;
use crate::VersionInfo;
use crate::strutil::{
    is_digit, spec_nat_chars, str_to_chars, chars_to_string, u32_chars, append_str, append_chars,
    spec_digits_val, all_digits, lemma_digits_val_prefix,
};

verus! {

/// Fields of interest of the latest-release record returned by the
/// release-hosting API: the tag, the release page, and the notes.
#[derive(Debug, Clone, PartialEq)]
pub struct ReleaseInfo {
    pub tag_name: String,
    pub html_url: String,
    pub notes: Option<String>,
}

/// The pieces of `s` between `'.'` separators, in order; always non-empty.
pub open spec fn spec_split_dots(s: Seq<char>) -> Seq<Seq<char>>
    decreases s.len(),
{
    if s.len() == 0 {
        seq![Seq::<char>::empty()]
    } else if s[s.len() - 1] == '.' {
        spec_split_dots(s.drop_last()) + seq![Seq::<char>::empty()]
    } else {
        let r = spec_split_dots(s.drop_last());
        r.update(r.len() - 1, r[r.len() - 1].push(s[s.len() - 1]))
    }
}

/// The numeric value of one version component: a non-numeric, missing or
/// out-of-range component counts as 0.
pub open spec fn spec_component(s: Seq<char>) -> int {
    if all_digits(s) && spec_digits_val(s) <= u32::MAX {
        spec_digits_val(s)
    } else {
        0
    }
}

/// The `i`-th component of a split version, 0 when absent.
pub open spec fn spec_part(parts: Seq<Seq<char>>, i: int) -> int {
    if 0 <= i < parts.len() {
        spec_component(parts[i])
    } else {
        0
    }
}

/// `latest` is strictly newer than `current` under the three-component
/// numeric comparison: the first differing component decides; components
/// beyond the third are ignored.
pub open spec fn spec_is_newer(current: Seq<char>, latest: Seq<char>) -> bool {
    let c = spec_split_dots(current);
    let l = spec_split_dots(latest);
    if spec_part(l, 0) != spec_part(c, 0) {
        spec_part(l, 0) > spec_part(c, 0)
    } else if spec_part(l, 1) != spec_part(c, 1) {
        spec_part(l, 1) > spec_part(c, 1)
    } else {
        spec_part(l, 2) > spec_part(c, 2)
    }
}

/// Computes the numeric value of one version component.
fn component_value(s: &Vec<char>) -> (r: u32)
    ensures
        r as int == spec_component(s@),
{
    if s.len() == 0 {
        return 0;
    }
    let mut acc: u64 = 0;
    let mut k: usize = 0;
    while k < s.len()
        invariant
            k <= s@.len(),
            acc as int == spec_digits_val(s@.take(k as int)),
            acc <= u32::MAX,
            forall|i: int| 0 <= i < k ==> is_digit(#[trigger] s@[i]),
        decreases s@.len() - k,
    {
        let c = s[k];
        let code: u32 = c as u32;
        if !(48 <= code && code <= 57) {
            assert(!all_digits(s@));
            return 0;
        }
        let d: u64 = (code - 48) as u64;
        acc = acc * 10 + d;
        k = k + 1;
        proof {
            assert(s@.take(k as int).drop_last() =~= s@.take(k - 1));
        }
        if acc > u32::MAX as u64 {
            proof {
                if all_digits(s@) {
                    lemma_digits_val_prefix(s@, k as int);
                }
            }
            return 0;
        }
    }
    proof {
        assert(s@.take(s@.len() as int) =~= s@);
    }
    acc as u32
}

/// Splits on `'.'`, left to right.
fn split_dots(v: &Vec<char>) -> (parts: Vec<Vec<char>>)
    ensures
        parts.deep_view() == spec_split_dots(v@),
        parts.len() >= 1,
{
    let mut parts: Vec<Vec<char>> = Vec::new();
    parts.push(Vec::new());
    proof {
        assert(parts.deep_view() =~~= spec_split_dots(v@.take(0)));
    }
    let mut i: usize = 0;
    while i < v.len()
        invariant
            i <= v@.len(),
            parts.deep_view() == spec_split_dots(v@.take(i as int)),
            parts.len() >= 1,
        decreases v@.len() - i,
    {
        let c = v[i];
        proof {
            assert(v@.take(i + 1 as int).drop_last() =~= v@.take(i as int));
            assert(v@.take(i + 1 as int)[i as int] == v@[i as int]);
        }
        if c == '.' {
            parts.push(Vec::new());
            proof {
                assert(parts.deep_view() =~~= spec_split_dots(v@.take(i + 1 as int)));
            }
        } else {
            let mut last = parts.pop().unwrap();
            last.push(c);
            parts.push(last);
            proof {
                let ghost old_parts = spec_split_dots(v@.take(i as int));
                assert(parts.deep_view() =~~= old_parts.update(
                    old_parts.len() - 1,
                    old_parts[old_parts.len() - 1].push(v@[i as int]),
                ));
            }
        }
        i = i + 1;
    }
    proof {
        assert(v@.take(v@.len() as int) =~= v@);
    }
    parts
}

/// The `i`-th component value of a version string's split.
fn part_of(parts: &Vec<Vec<char>>, i: usize) -> (r: u32)
    ensures
        r as int == spec_part(parts.deep_view(), i as int),
{
    if i < parts.len() {
        let r = component_value(&parts[i]);
        proof {
            assert(parts.deep_view()[i as int] == parts@[i as int]@);
        }
        r
    } else {
        0
    }
}

/// Returns whether `latest` is a strictly newer version than `current`:
/// major, minor and patch are compared numerically in turn; the first
/// difference decides, and equal triples are not newer.
pub fn is_newer_version(current: &str, latest: &str) -> (r: bool)
    ensures
        r == spec_is_newer(current@, latest@),
{
    let cc = str_to_chars(current);
    let lc = str_to_chars(latest);
    let cp = split_dots(&cc);
    let lp = split_dots(&lc);
    let c0 = part_of(&cp, 0);
    let l0 = part_of(&lp, 0);
    if l0 != c0 {
        return l0 > c0;
    }
    let c1 = part_of(&cp, 1);
    let l1 = part_of(&lp, 1);
    if l1 != c1 {
        return l1 > c1;
    }
    let c2 = part_of(&cp, 2);
    let l2 = part_of(&lp, 2);
    l2 > c2
}

/// `s` with every leading `'v'` removed, as `str::trim_start_matches('v')`
/// leaves it.
pub open spec fn spec_trim_leading_v(s: Seq<char>) -> Seq<char>
    decreases s.len(),
{
    if s.len() > 0 && s[0] == 'v' {
        spec_trim_leading_v(s.drop_first())
    } else {
        s
    }
}

/// Strips leading `'v'` characters from a release tag.
pub fn trim_leading_v(s: &str) -> (r: String)
    ensures
        r@ == spec_trim_leading_v(s@),
{
    let v = str_to_chars(s);
    proof {
        assert(v@.skip(0) =~= v@);
    }
    let mut i: usize = 0;
    while i < v.len() && v[i] == 'v'
        invariant
            i <= v@.len(),
            spec_trim_leading_v(v@.skip(i as int)) == spec_trim_leading_v(v@),
        decreases v@.len() - i,
    {
        proof {
            assert(v@.skip(i as int).drop_first() =~= v@.skip(i + 1 as int));
        }
        i = i + 1;
    }
    let mut out: Vec<char> = Vec::new();
    let mut k: usize = i;
    while k < v.len()
        invariant
            i <= k <= v@.len(),
            out@ == v@.subrange(i as int, k as int),
        decreases v@.len() - k,
    {
        out.push(v[k]);
        k = k + 1;
        proof {
            assert(out@ =~= v@.subrange(i as int, k as int));
        }
    }
    proof {
        assert(v@.subrange(i as int, v@.len() as int) =~= v@.skip(i as int));
        if i < v@.len() {
            assert(spec_trim_leading_v(v@.skip(i as int)) == v@.skip(i as int));
        } else {
            assert(v@.skip(i as int) =~= Seq::<char>::empty());
        }
    }
    chars_to_string(&out)
}

/// The error text reported for a failing release-API status.
pub open spec fn spec_status_error(status: u16, body: Seq<char>) -> Seq<char> {
    "GitHub API returned status "@ + spec_nat_chars(status as nat) + ": "@ + body
}

/// Decides the outcome of an update check from the release-API response:
/// 404 means "no releases yet" and is not an error; any other non-2xx
/// status is an error carrying status and body; on success the tag is
/// stripped of leading `v` and compared with the running version. `release`
/// is `None` when the response body did not parse as a release record.
pub fn evaluate_release_check(
    current_version: String,
    status: u16,
    body: &str,
    release: Option<ReleaseInfo>,
) -> (r: Result<VersionInfo, String>)
    ensures
        status == 404 ==> r is Ok && {
            let v = r->Ok_0;
            &&& v.current_version == current_version
            &&& v.latest_version is None
            &&& v.update_available == false
            &&& v.release_url is None
            &&& v.release_notes is None
        },
        status != 404 && !(200 <= status < 300) ==> r is Err && r->Err_0@ == spec_status_error(
            status,
            body@,
        ),
        200 <= status < 300 && release is None ==> r is Err && r->Err_0@
            == "Failed to parse release info"@,
        200 <= status < 300 && release is Some ==> r is Ok && {
            let v = r->Ok_0;
            let rel = release->0;
            let stripped = spec_trim_leading_v(rel.tag_name@);
            &&& v.current_version == current_version
            &&& v.latest_version is Some && (v.latest_version->0)@ == stripped
            &&& v.update_available == spec_is_newer(current_version@, stripped)
            &&& v.release_url == Some(rel.html_url)
            &&& v.release_notes == rel.notes
        },
{
    if status == 404 {
        return Ok(
            VersionInfo {
                current_version,
                latest_version: None,
                update_available: false,
                release_url: None,
                release_notes: None,
            },
        );
    }
    if !(200 <= status && status < 300) {
        let mut msg: Vec<char> = Vec::new();
        append_str(&mut msg, "GitHub API returned status ");
        let digits = u32_chars(status as u32);
        append_chars(&mut msg, &digits);
        append_str(&mut msg, ": ");
        append_str(&mut msg, body);
        return Err(chars_to_string(&msg));
    }
    match release {
        None => Err(String::from_str("Failed to parse release info")),
        Some(rel) => {
            let latest = trim_leading_v(rel.tag_name.as_str());
            let update_available = is_newer_version(current_version.as_str(), latest.as_str());
            Ok(
                VersionInfo {
                    current_version,
                    latest_version: Some(latest),
                    update_available,
                    release_url: Some(rel.html_url),
                    release_notes: rel.notes,
                },
            )
        },
    }
}

} // verus!
