//! URL resolution for the general-purpose GET and POST operations: a fully
//! qualified `url` wins; otherwise a `base_url` (its trailing slashes
//! stripped) is concatenated with the optional `endpoint`; a bare `endpoint`
//! is used as given; with none of the three the call is refused before any
//! network work.

use vstd::prelude::*;
use crate::odata::opt_str_view;
use crate::strutil::{spec_trim_trailing_slashes, str_to_chars, chars_to_string, append_str,
    trim_trailing_slashes};

verus! {

/// The resolved request URL, `None` when no argument supplies one.
pub open spec fn spec_resolve_url(
    url: Option<Seq<char>>,
    base_url: Option<Seq<char>>,
    endpoint: Option<Seq<char>>,
) -> Option<Seq<char>> {
    match url {
        Some(u) => Some(u),
        None => match base_url {
            Some(b) => match endpoint {
                Some(e) => Some(spec_trim_trailing_slashes(b) + e),
                None => Some(b),
            },
            None => match endpoint {
                Some(e) => Some(e),
                None => None,
            },
        },
    }
}

/// The error text reported when no URL argument is usable.
pub open spec fn spec_no_url_error() -> Seq<char> {
    "No URL provided. Pass 'url' or 'baseUrl' (optionally with 'endpoint')"@
}

/// Resolves the URL of a GET or POST request from the three optional
/// arguments, failing before any network work when none is given.
pub fn resolve_url(
    url: Option<String>,
    base_url: Option<String>,
    endpoint: Option<String>,
) -> (r: Result<String, String>)
    ensures
        match spec_resolve_url(opt_str_view(url), opt_str_view(base_url), opt_str_view(endpoint)) {
            Some(u) => r is Ok && r->Ok_0@ == u,
            None => r is Err && r->Err_0@ == spec_no_url_error(),
        },
{
    match url {
        Some(u) => Ok(u),
        None => match base_url {
            Some(b) => match endpoint {
                Some(e) => {
                    let bc = str_to_chars(b.as_str());
                    let mut t = trim_trailing_slashes(bc);
                    append_str(&mut t, e.as_str());
                    Ok(chars_to_string(&t))
                },
                None => Ok(b),
            },
            None => match endpoint {
                Some(e) => Ok(e),
                None => Err(
                    String::from_str(
                        "No URL provided. Pass 'url' or 'baseUrl' (optionally with 'endpoint')",
                    ),
                ),
            },
        },
    }
}

} // verus!
