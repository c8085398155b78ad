//! Request-header assembly. Every request carries `Accept` and
//! `Content-Type: application/json` (the target API answers XML unless JSON
//! is demanded); an authenticated request carries the numeric `UserID` and
//! the token both as `Authorization: Bearer` and as `AuthenticationToken`.
//! Caller-supplied headers come last, so that they win when the receiving
//! header map is filled in order.

use vstd::prelude::*;
use crate::strutil::{spec_int_chars, str_to_chars, chars_to_string, append_str, i32_chars};

verus! {

/// The views of a list of owned header pairs.
pub open spec fn pairs_view(v: Seq<(String, String)>) -> Seq<(Seq<char>, Seq<char>)> {
    v.map_values(|p: (String, String)| (p.0@, p.1@))
}

/// The view of an optional list of owned header pairs; absent means empty.
pub open spec fn opt_pairs_view(v: Option<Seq<(String, String)>>) -> Seq<(Seq<char>, Seq<char>)> {
    match v {
        Some(s) => pairs_view(s),
        None => Seq::<(Seq<char>, Seq<char>)>::empty(),
    }
}

/// The header pairs of one request, in order: the two JSON defaults, then
/// `UserID` when a numeric user id is given, then the two token headers when
/// a token is given, then the caller's own headers.
pub open spec fn spec_header_pairs(
    custom: Option<Seq<(String, String)>>,
    user_id: Option<i32>,
    auth_token: Option<Seq<char>>,
) -> Seq<(Seq<char>, Seq<char>)> {
    seq![("Accept"@, "application/json"@), ("Content-Type"@, "application/json"@)] + (
    match user_id {
        Some(n) => seq![("UserID"@, spec_int_chars(n as int))],
        None => Seq::<(Seq<char>, Seq<char>)>::empty(),
    }) + (match auth_token {
        Some(t) => seq![("Authorization"@, "Bearer "@ + t), ("AuthenticationToken"@, t)],
        None => Seq::<(Seq<char>, Seq<char>)>::empty(),
    }) + opt_pairs_view(custom)
}

/// The effective value of header `name` in `hs`: the last pair with that
/// name wins, as it does when the pairs are inserted into a header map in
/// order.
pub open spec fn spec_header_value(
    hs: Seq<(Seq<char>, Seq<char>)>,
    name: Seq<char>,
) -> Option<Seq<char>>
    decreases hs.len(),
{
    if hs.len() == 0 {
        None
    } else if hs.last().0 == name {
        Some(hs.last().1)
    } else {
        spec_header_value(hs.drop_last(), name)
    }
}

/// Looking a name up in a concatenation: the right-hand part wins when it
/// knows the name at all.
pub proof fn lemma_header_value_concat(
    a: Seq<(Seq<char>, Seq<char>)>,
    b: Seq<(Seq<char>, Seq<char>)>,
    name: Seq<char>,
)
    ensures
        spec_header_value(a + b, name) == (if spec_header_value(b, name) is Some {
            spec_header_value(b, name)
        } else {
            spec_header_value(a, name)
        }),
    decreases b.len(),
{
    if b.len() == 0 {
        assert(a + b =~= a);
    } else {
        assert((a + b).drop_last() =~= a + b.drop_last());
        lemma_header_value_concat(a, b.drop_last(), name);
    }
}

/// A name that no pair carries is not found.
pub proof fn lemma_header_value_absent(hs: Seq<(Seq<char>, Seq<char>)>, name: Seq<char>)
    requires
        forall|i: int| 0 <= i < hs.len() ==> (#[trigger] hs[i]).0 != name,
    ensures
        spec_header_value(hs, name) is None,
    decreases hs.len(),
{
    if hs.len() > 0 {
        lemma_header_value_absent(hs.drop_last(), name);
    }
}

/// Builds the header pairs of one request, exactly as
/// [`spec_header_pairs`] lays them out.
pub fn build_header_pairs(
    custom: Option<Vec<(String, String)>>,
    user_id: Option<i32>,
    auth_token: Option<String>,
) -> (r: Vec<(String, String)>)
    ensures
        pairs_view(r@) == spec_header_pairs(
            match custom {
                Some(c) => Some(c@),
                None => None,
            },
            user_id,
            match auth_token {
                Some(t) => Some(t@),
                None => None,
            },
        ),
{
    let ghost g_custom: Option<Seq<(String, String)>> = match custom {
        Some(ref c) => Some(c@),
        None => None,
    };
    let ghost g_token: Option<Seq<char>> = match auth_token {
        Some(ref t) => Some(t@),
        None => None,
    };
    let mut r: Vec<(String, String)> = Vec::new();
    r.push((String::from_str("Accept"), String::from_str("application/json")));
    r.push((String::from_str("Content-Type"), String::from_str("application/json")));
    match user_id {
        Some(n) => {
            let d = i32_chars(n);
            r.push((String::from_str("UserID"), chars_to_string(&d)));
        },
        None => {},
    }
    match auth_token {
        Some(t) => {
            let mut bearer: Vec<char> = Vec::new();
            append_str(&mut bearer, "Bearer ");
            append_str(&mut bearer, t.as_str());
            r.push((String::from_str("Authorization"), chars_to_string(&bearer)));
            r.push((String::from_str("AuthenticationToken"), t));
        },
        None => {},
    }
    let ghost before_custom = r@;
    match custom {
        Some(cs) => {
            let mut k: usize = 0;
            let n = cs.len();
            let mut rest = cs;
            let ghost all = rest@;
            let mut r2 = r;
            // move the caller's pairs over in order
            while k < n
                invariant
                    k <= n,
                    n == all.len(),
                    rest@ == all.skip(k as int),
                    r2@ == before_custom + all.take(k as int),
                decreases n - k,
            {
                let p = rest.remove(0);
                r2.push(p);
                k = k + 1;
                proof {
                    assert(all.skip(k - 1).drop_first() =~= all.skip(k as int));
                    assert(all.skip(k - 1)[0] == all[k - 1]);
                    assert(r2@ =~= before_custom + all.take(k as int));
                }
            }
            proof {
                assert(all.take(all.len() as int) =~= all);
                assert(pairs_view(r2@) =~= spec_header_pairs(g_custom, user_id, g_token));
            }
            r2
        },
        None => {
            proof {
                assert(pairs_view(r@) =~= spec_header_pairs(g_custom, user_id, g_token));
            }
            r
        },
    }
}

/// Law: every built header list carries `Accept` and `Content-Type`; each
/// defaults to `application/json`, and a caller-supplied header of the same
/// name overrides the default.
pub proof fn lemma_headers_default_and_override(
    custom: Option<Seq<(String, String)>>,
    user_id: Option<i32>,
    auth_token: Option<Seq<char>>,
)
    ensures
        spec_header_value(spec_header_pairs(custom, user_id, auth_token), "Accept"@) is Some,
        spec_header_value(spec_header_pairs(custom, user_id, auth_token), "Content-Type"@)
            is Some,
        spec_header_value(opt_pairs_view(custom), "Accept"@) is None ==> spec_header_value(
            spec_header_pairs(custom, user_id, auth_token),
            "Accept"@,
        ) == Some("application/json"@),
        spec_header_value(opt_pairs_view(custom), "Accept"@) is Some ==> spec_header_value(
            spec_header_pairs(custom, user_id, auth_token),
            "Accept"@,
        ) == spec_header_value(opt_pairs_view(custom), "Accept"@),
        spec_header_value(opt_pairs_view(custom), "Content-Type"@) is None ==> spec_header_value(
            spec_header_pairs(custom, user_id, auth_token),
            "Content-Type"@,
        ) == Some("application/json"@),
        spec_header_value(opt_pairs_view(custom), "Content-Type"@) is Some ==> spec_header_value(
            spec_header_pairs(custom, user_id, auth_token),
            "Content-Type"@,
        ) == spec_header_value(opt_pairs_view(custom), "Content-Type"@),
{
    let defaults = seq![("Accept"@, "application/json"@), ("Content-Type"@, "application/json"@)];
    let uid_part: Seq<(Seq<char>, Seq<char>)> = match user_id {
        Some(n) => seq![("UserID"@, spec_int_chars(n as int))],
        None => Seq::<(Seq<char>, Seq<char>)>::empty(),
    };
    let tok_part: Seq<(Seq<char>, Seq<char>)> = match auth_token {
        Some(t) => seq![("Authorization"@, "Bearer "@ + t), ("AuthenticationToken"@, t)],
        None => Seq::<(Seq<char>, Seq<char>)>::empty(),
    };
    let fixed = defaults + uid_part + tok_part;
    let all = spec_header_pairs(custom, user_id, auth_token);
    assert(all =~= fixed + opt_pairs_view(custom));
    reveal_strlit("Accept");
    reveal_strlit("Content-Type");
    reveal_strlit("UserID");
    reveal_strlit("Authorization");
    reveal_strlit("AuthenticationToken");
    assert("Accept"@.len() == 6);
    assert("Content-Type"@.len() == 12);
    assert("UserID"@.len() == 6);
    assert("Authorization"@.len() == 13);
    assert("AuthenticationToken"@.len() == 19);
    assert("Accept"@ != "UserID"@) by {
        assert("Accept"@[0] == 'A' && "UserID"@[0] == 'U');
    }
    assert("Accept"@ != "Authorization"@);
    assert("Accept"@ != "AuthenticationToken"@);
    assert("Accept"@ != "Content-Type"@);
    assert("Content-Type"@ != "UserID"@);
    assert("Content-Type"@ != "Authorization"@);
    assert("Content-Type"@ != "AuthenticationToken"@);
    assert(spec_header_value(tok_part, "Accept"@) is None) by {
        lemma_header_value_absent(tok_part, "Accept"@);
    }
    assert(spec_header_value(uid_part, "Accept"@) is None) by {
        lemma_header_value_absent(uid_part, "Accept"@);
    }
    assert(spec_header_value(tok_part, "Content-Type"@) is None) by {
        lemma_header_value_absent(tok_part, "Content-Type"@);
    }
    assert(spec_header_value(uid_part, "Content-Type"@) is None) by {
        lemma_header_value_absent(uid_part, "Content-Type"@);
    }
    assert(defaults.drop_last() =~= seq![("Accept"@, "application/json"@)]);
    assert(spec_header_value(defaults, "Accept"@) == Some("application/json"@)) by {
        assert(spec_header_value(defaults, "Accept"@) == spec_header_value(
            defaults.drop_last(),
            "Accept"@,
        ));
        assert(spec_header_value(seq![("Accept"@, "application/json"@)], "Accept"@) == Some(
            "application/json"@,
        ));
    }
    assert(spec_header_value(defaults, "Content-Type"@) == Some("application/json"@));
    assert(spec_header_value(fixed, "Accept"@) == Some("application/json"@)) by {
        lemma_header_value_concat(defaults + uid_part, tok_part, "Accept"@);
        lemma_header_value_concat(defaults, uid_part, "Accept"@);
    }
    assert(spec_header_value(fixed, "Content-Type"@) == Some("application/json"@)) by {
        lemma_header_value_concat(defaults + uid_part, tok_part, "Content-Type"@);
        lemma_header_value_concat(defaults, uid_part, "Content-Type"@);
    }
    lemma_header_value_concat(fixed, opt_pairs_view(custom), "Accept"@);
    lemma_header_value_concat(fixed, opt_pairs_view(custom), "Content-Type"@);
}

} // verus!
