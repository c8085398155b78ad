//! OData query construction and response handling: normalization of the
//! historical base-URL conventions into one canonical query root, assembly of
//! the `$`-prefixed query parameters in their fixed order, and the
//! success-only interpretation of the response body as JSON.

use vstd::prelude::*;
use crate::strutil::{
    spec_ends_with, spec_trim_trailing_slashes, spec_int_chars, str_to_chars, chars_to_string,
    chars_end_with, trim_trailing_slashes, chars_take, append_str, append_chars, i32_chars,
    u32_chars, spec_nat_chars, spec_starts_with, lemma_starts_with_concat,
};

verus! {

/// The canonical query root for `s`: a URL already ending in the canonical
/// path (`/CoreApi/OData`) or the lowercase alias (`/odata`), with or without
/// one trailing slash, keeps its path (trailing slashes stripped); the legacy
/// path (`/ODataApi`) is rewritten to the canonical one; any other URL gets
/// the canonical path appended after its trailing slashes are stripped.
pub open spec fn spec_normalize_odata_base(s: Seq<char>) -> Seq<char> {
    if spec_ends_with(s, "/CoreApi/OData"@) || spec_ends_with(s, "/CoreApi/OData/"@) {
        spec_trim_trailing_slashes(s)
    } else if spec_ends_with(s, "/ODataApi"@) || spec_ends_with(s, "/ODataApi/"@) {
        spec_trim_trailing_slashes(s).take(
            spec_trim_trailing_slashes(s).len() - "/ODataApi"@.len(),
        ) + "/CoreApi/OData"@
    } else if spec_ends_with(s, "/odata"@) || spec_ends_with(s, "/odata/"@) {
        spec_trim_trailing_slashes(s)
    } else {
        spec_trim_trailing_slashes(s) + "/CoreApi/OData"@
    }
}

proof fn lemma_trim_with_suffix(s: Seq<char>, suffix: Seq<char>)
    requires
        suffix.len() > 0,
        suffix[suffix.len() - 1] != '/',
        spec_ends_with(s, suffix) || spec_ends_with(s, suffix + seq!['/']),
    ensures
        spec_ends_with(spec_trim_trailing_slashes(s), suffix),
{
    if spec_ends_with(s, suffix) {
        assert(s[s.len() - 1] == suffix[suffix.len() - 1]) by {
            assert(s.subrange(s.len() - suffix.len(), s.len() as int)[suffix.len() - 1]
                == suffix[suffix.len() - 1]);
        }
        crate::strutil::lemma_trim_no_slash(s);
    } else {
        let t = s.drop_last();
        assert(s[s.len() - 1] == '/') by {
            assert(s.subrange(s.len() - suffix.len() - 1, s.len() as int)[suffix.len() as int]
                == (suffix + seq!['/'])[suffix.len() as int]);
        }
        assert(spec_ends_with(t, suffix)) by {
            assert(t.subrange(t.len() - suffix.len(), t.len() as int) =~= s.subrange(
                s.len() - suffix.len() - 1,
                s.len() as int,
            ).subrange(0, suffix.len() as int));
            assert((suffix + seq!['/']).subrange(0, suffix.len() as int) =~= suffix);
        }
        assert(t[t.len() - 1] == suffix[suffix.len() - 1]) by {
            assert(t.subrange(t.len() - suffix.len(), t.len() as int)[suffix.len() - 1]
                == suffix[suffix.len() - 1]);
        }
        crate::strutil::lemma_trim_no_slash(t);
        assert(spec_trim_trailing_slashes(s) == t);
    }
}

/// Rewrites a base URL to the canonical OData query root.
pub fn normalize_odata_base(base_url: &str) -> (r: Vec<char>)
    ensures
        r@ == spec_normalize_odata_base(base_url@),
{
    let v = str_to_chars(base_url);
    if chars_end_with(&v, "/CoreApi/OData") || chars_end_with(&v, "/CoreApi/OData/") {
        trim_trailing_slashes(v)
    } else if chars_end_with(&v, "/ODataApi") || chars_end_with(&v, "/ODataApi/") {
        proof {
            reveal_strlit("/ODataApi");
            reveal_strlit("/ODataApi/");
            assert("/ODataApi/"@ =~= "/ODataApi"@ + seq!['/']);
            assert("/ODataApi"@[8] == 'i');
            lemma_trim_with_suffix(v@, "/ODataApi"@);
        }
        let t = trim_trailing_slashes(v);
        let keep = t.len() - "/ODataApi".unicode_len();
        let mut r = chars_take(&t, keep);
        append_str(&mut r, "/CoreApi/OData");
        r
    } else if chars_end_with(&v, "/odata") || chars_end_with(&v, "/odata/") {
        trim_trailing_slashes(v)
    } else {
        let mut r = trim_trailing_slashes(v);
        append_str(&mut r, "/CoreApi/OData");
        r
    }
}

/// One optional textual query parameter: emitted only when present and
/// non-empty.
pub open spec fn spec_opt_param(prefix: Seq<char>, v: Option<Seq<char>>) -> Seq<Seq<char>> {
    match v {
        Some(s) => if s.len() > 0 {
            seq![prefix + s]
        } else {
            Seq::<Seq<char>>::empty()
        },
        None => Seq::<Seq<char>>::empty(),
    }
}

/// The view of an optional string.
pub open spec fn opt_str_view(o: Option<String>) -> Option<Seq<char>> {
    match o {
        Some(s) => Some(s@),
        None => None,
    }
}

/// The query parameters of an OData request, in their fixed order:
/// `$top`, `$skip`, `$filter`, `$select`, `$expand`, `$orderby`, `$count`.
pub open spec fn spec_odata_params(
    top: Option<i32>,
    skip: Option<i32>,
    filter: Option<Seq<char>>,
    select: Option<Seq<char>>,
    expand: Option<Seq<char>>,
    orderby: Option<Seq<char>>,
    count: bool,
) -> Seq<Seq<char>> {
    (match top {
        Some(n) => seq!["$top="@ + spec_int_chars(n as int)],
        None => Seq::<Seq<char>>::empty(),
    }) + (match skip {
        Some(n) => seq!["$skip="@ + spec_int_chars(n as int)],
        None => Seq::<Seq<char>>::empty(),
    }) + spec_opt_param("$filter="@, filter) + spec_opt_param("$select="@, select)
        + spec_opt_param("$expand="@, expand) + spec_opt_param("$orderby="@, orderby) + (if count {
        seq!["$count=true"@]
    } else {
        Seq::<Seq<char>>::empty()
    })
}

/// The pieces joined with `'&'`.
pub open spec fn spec_join_amp(ps: Seq<Seq<char>>) -> Seq<char>
    decreases ps.len(),
{
    if ps.len() == 0 {
        Seq::<char>::empty()
    } else if ps.len() == 1 {
        ps[0]
    } else {
        spec_join_amp(ps.drop_last()) + seq!['&'] + ps.last()
    }
}

/// The full OData request URL: canonical query root, the entity as one path
/// segment, and the `?`-introduced parameters only when some are present.
pub open spec fn spec_odata_url(
    base_url: Seq<char>,
    entity: Seq<char>,
    top: Option<i32>,
    skip: Option<i32>,
    filter: Option<Seq<char>>,
    select: Option<Seq<char>>,
    expand: Option<Seq<char>>,
    orderby: Option<Seq<char>>,
    count: bool,
) -> Seq<char> {
    let ps = spec_odata_params(top, skip, filter, select, expand, orderby, count);
    spec_normalize_odata_base(base_url) + seq!['/'] + entity + (if ps.len() > 0 {
        seq!['?'] + spec_join_amp(ps)
    } else {
        Seq::<char>::empty()
    })
}

fn push_opt_param(params: &mut Vec<Vec<char>>, prefix: &str, v: &Option<String>)
    ensures
        final(params)@.map_values(|p: Vec<char>| p@) == old(params)@.map_values(
            |p: Vec<char>| p@,
        ) + spec_opt_param(prefix@, opt_str_view(*v)),
{
    match v {
        Some(s) => {
            if s.as_str().unicode_len() > 0 {
                let mut p = str_to_chars(prefix);
                append_str(&mut p, s.as_str());
                params.push(p);
                proof {
                    assert(params@.map_values(|q: Vec<char>| q@) =~= old(params)@.map_values(
                        |q: Vec<char>| q@,
                    ) + spec_opt_param(prefix@, opt_str_view(*v)));
                }
            } else {
                proof {
                    assert(params@.map_values(|q: Vec<char>| q@) =~= old(params)@.map_values(
                        |q: Vec<char>| q@,
                    ) + spec_opt_param(prefix@, opt_str_view(*v)));
                }
            }
        },
        None => {
            proof {
                assert(params@.map_values(|q: Vec<char>| q@) =~= old(params)@.map_values(
                    |q: Vec<char>| q@,
                ) + spec_opt_param(prefix@, opt_str_view(*v)));
            }
        },
    }
}

/// Builds the OData request URL for one query, exactly as
/// [`spec_odata_url`] lays it out.
pub fn build_odata_url(
    base_url: &str,
    entity: &str,
    top: Option<i32>,
    skip: Option<i32>,
    filter: Option<String>,
    select: Option<String>,
    expand: Option<String>,
    orderby: Option<String>,
    count: Option<bool>,
) -> (r: String)
    ensures
        r@ == spec_odata_url(
            base_url@,
            entity@,
            top,
            skip,
            opt_str_view(filter),
            opt_str_view(select),
            opt_str_view(expand),
            opt_str_view(orderby),
            count == Some(true),
        ),
{
    let mut url = normalize_odata_base(base_url);
    url.push('/');
    append_str(&mut url, entity);
    let ghost g_filter = opt_str_view(filter);
    let ghost g_select = opt_str_view(select);
    let ghost g_expand = opt_str_view(expand);
    let ghost g_orderby = opt_str_view(orderby);
    let ghost g_count = count == Some(true);
    let mut params: Vec<Vec<char>> = Vec::new();
    match top {
        Some(n) => {
            let mut p = str_to_chars("$top=");
            let d = i32_chars(n);
            append_chars(&mut p, &d);
            params.push(p);
        },
        None => {},
    }
    let ghost g1 = params@.map_values(|q: Vec<char>| q@);
    proof {
        assert(g1 =~= match top {
            Some(n) => seq!["$top="@ + spec_int_chars(n as int)],
            None => Seq::<Seq<char>>::empty(),
        });
    }
    match skip {
        Some(n) => {
            let mut p = str_to_chars("$skip=");
            let d = i32_chars(n);
            append_chars(&mut p, &d);
            params.push(p);
        },
        None => {},
    }
    let ghost g2 = params@.map_values(|q: Vec<char>| q@);
    proof {
        assert(g2 =~= g1 + match skip {
            Some(n) => seq!["$skip="@ + spec_int_chars(n as int)],
            None => Seq::<Seq<char>>::empty(),
        });
    }
    push_opt_param(&mut params, "$filter=", &filter);
    push_opt_param(&mut params, "$select=", &select);
    push_opt_param(&mut params, "$expand=", &expand);
    push_opt_param(&mut params, "$orderby=", &orderby);
    let add_count = match count {
        Some(b) => b,
        None => false,
    };
    if add_count {
        params.push(str_to_chars("$count=true"));
    }
    proof {
        assert(params@.map_values(|q: Vec<char>| q@) =~= spec_odata_params(
            top,
            skip,
            g_filter,
            g_select,
            g_expand,
            g_orderby,
            g_count,
        ));
    }
    let ghost ps = params@.map_values(|q: Vec<char>| q@);
    if params.len() > 0 {
        url.push('?');
        let mut joined: Vec<char> = Vec::new();
        let mut i: usize = 0;
        while i < params.len()
            invariant
                i <= params@.len(),
                ps == params@.map_values(|q: Vec<char>| q@),
                joined@ == spec_join_amp(ps.take(i as int)),
            decreases params@.len() - i,
        {
            if i > 0 {
                joined.push('&');
            }
            append_chars(&mut joined, &params[i]);
            i = i + 1;
            proof {
                assert(ps.take(i as int).drop_last() =~= ps.take(i - 1));
                assert(ps.take(i as int).last() == ps[i - 1]);
                assert(joined@ =~= spec_join_amp(ps.take(i as int)));
            }
        }
        proof {
            assert(ps.take(ps.len() as int) =~= ps);
        }
        append_chars(&mut url, &joined);
    }
    proof {
        assert(url@ =~= spec_odata_url(
            base_url@,
            entity@,
            top,
            skip,
            g_filter,
            g_select,
            g_expand,
            g_orderby,
            g_count,
        ));
    }
    chars_to_string(&url)
}

#[verifier::external_type_specification]
#[verifier::external_body]
pub struct ExJsonValue(serde_json::Value);

#[verifier::external_type_specification]
#[verifier::external_body]
pub struct ExJsonError(serde_json::Error);

/// Whether `s` is a well-formed JSON document, as `serde_json` accepts it.
pub uninterp spec fn is_json_text(s: Seq<char>) -> bool;

/// Relies on `serde_json::from_str::<Value>`: parsing is a deterministic
/// function of the text alone, and returns `Ok` exactly on well-formed JSON.
#[verifier::external_body]
fn parse_json_value(s: &str) -> (r: Result<serde_json::Value, serde_json::Error>)
    ensures
        r is Ok <==> is_json_text(s@),
{
    serde_json::from_str(s)
}

/// Relies on `serde_json::Error`'s `Display` implementation for the
/// human-readable description of a parse failure.
#[verifier::external_body]
fn json_error_text(e: &serde_json::Error) -> String {
    format!("{}", e)
}

/// The error text reported for a failing OData response status.
pub open spec fn spec_odata_status_error(status: u16, body: Seq<char>) -> Seq<char> {
    "OData query failed with status "@ + spec_nat_chars(status as nat) + ": "@ + body
}

/// Interprets a completed OData exchange: a non-2xx status is an error
/// carrying status and body; a 2xx body must parse as JSON, and a body that
/// does not is a distinct error.
pub fn odata_handle_response(status: u16, body: &str) -> (r: Result<serde_json::Value, String>)
    ensures
        !(200 <= status < 300) ==> r is Err && r->Err_0@ == spec_odata_status_error(status, body@),
        200 <= status < 300 ==> (r is Ok <==> is_json_text(body@)),
        200 <= status < 300 && !is_json_text(body@) ==> r is Err && spec_starts_with(
            r->Err_0@,
            "Failed to parse OData response as JSON: "@,
        ),
{
    if !(200 <= status && status < 300) {
        let mut msg: Vec<char> = Vec::new();
        append_str(&mut msg, "OData query failed with status ");
        let digits = u32_chars(status as u32);
        append_chars(&mut msg, &digits);
        append_str(&mut msg, ": ");
        append_str(&mut msg, body);
        return Err(chars_to_string(&msg));
    }
    match parse_json_value(body) {
        Ok(v) => Ok(v),
        Err(e) => {
            let detail = json_error_text(&e);
            let mut msg: Vec<char> = Vec::new();
            append_str(&mut msg, "Failed to parse OData response as JSON: ");
            append_str(&mut msg, detail.as_str());
            proof {
                assert(msg@ =~= "Failed to parse OData response as JSON: "@ + detail@);
                lemma_starts_with_concat("Failed to parse OData response as JSON: "@, detail@);
            }
            Err(chars_to_string(&msg))
        },
    }
}

} // verus!
