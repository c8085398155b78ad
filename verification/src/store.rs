//! The credential store: each record kind lives under its own composite key
//! `<kind>:<profile name>` in the OS secret store, within one fixed service
//! namespace. The three kinds are independent namespaces; records travel as
//! the canonical JSON text of the codec.

use vstd::prelude::*;
use crate::{Credentials, LoginCredentials, AppTokenCredentials};
use crate::json::{
    credentials_to_json, credentials_from_json, login_credentials_to_json,
    login_credentials_from_json, apptoken_credentials_to_json, apptoken_credentials_from_json,
};
use crate::json::{spec_decode_credentials, spec_decode_login, spec_decode_apptoken};
use crate::strutil::{append_str, chars_to_string, spec_starts_with, lemma_starts_with_concat};

verus! {

/// The storage key of a session-credentials record.
pub open spec fn spec_profile_key(name: Seq<char>) -> Seq<char> {
    "profile:"@ + name
}

/// The storage key of a username/password record.
pub open spec fn spec_login_key(name: Seq<char>) -> Seq<char> {
    "login:"@ + name
}

/// The storage key of an app-token record.
pub open spec fn spec_apptoken_key(name: Seq<char>) -> Seq<char> {
    "apptoken:"@ + name
}

/// The fixed service namespace under which every entry is stored.
pub fn service_name() -> (r: String)
    ensures
        r@ == "monash-nimbus-reports"@,
{
    String::from_str("monash-nimbus-reports")
}

/// Builds the storage key of a session-credentials record.
pub fn profile_key(name: &str) -> (r: String)
    ensures
        r@ == spec_profile_key(name@),
{
    let mut out: Vec<char> = Vec::new();
    append_str(&mut out, "profile:");
    append_str(&mut out, name);
    chars_to_string(&out)
}

/// Builds the storage key of a username/password record.
pub fn login_key(name: &str) -> (r: String)
    ensures
        r@ == spec_login_key(name@),
{
    let mut out: Vec<char> = Vec::new();
    append_str(&mut out, "login:");
    append_str(&mut out, name);
    chars_to_string(&out)
}

/// Builds the storage key of an app-token record.
pub fn apptoken_key(name: &str) -> (r: String)
    ensures
        r@ == spec_apptoken_key(name@),
{
    let mut out: Vec<char> = Vec::new();
    append_str(&mut out, "apptoken:");
    append_str(&mut out, name);
    chars_to_string(&out)
}

proof fn lemma_prefix_concat_injective(p: Seq<char>, a: Seq<char>, b: Seq<char>)
    requires
        p + a == p + b,
    ensures
        a == b,
{
    assert((p + a).len() == p.len() + a.len());
    assert((p + b).len() == p.len() + b.len());
    assert(a.len() == b.len());
    assert forall|i: int| 0 <= i < a.len() implies a[i] == b[i] by {
        assert((p + a)[p.len() + i] == a[i]);
        assert((p + b)[p.len() + i] == b[i]);
    }
    assert(a =~= b);
}

/// Law: the three record kinds occupy disjoint key spaces — no key of one
/// kind ever equals a key of another, whatever the profile names — and
/// within one kind, distinct profile names give distinct keys.
pub proof fn lemma_store_keys_distinct(a: Seq<char>, b: Seq<char>)
    ensures
        spec_profile_key(a) != spec_login_key(b),
        spec_profile_key(a) != spec_apptoken_key(b),
        spec_login_key(a) != spec_apptoken_key(b),
        spec_profile_key(a) == spec_profile_key(b) ==> a == b,
        spec_login_key(a) == spec_login_key(b) ==> a == b,
        spec_apptoken_key(a) == spec_apptoken_key(b) ==> a == b,
{
    reveal_strlit("profile:");
    reveal_strlit("login:");
    reveal_strlit("apptoken:");
    assert("profile:"@.len() == 8 && "login:"@.len() == 6 && "apptoken:"@.len() == 9);
    assert("profile:"@[0] == 'p' && "login:"@[0] == 'l' && "apptoken:"@[0] == 'a');
    assert(spec_profile_key(a)[0] == 'p');
    assert(spec_login_key(b)[0] == 'l');
    assert(spec_apptoken_key(b)[0] == 'a');
    assert(spec_login_key(a)[0] == 'l');
    if spec_profile_key(a) == spec_profile_key(b) {
        lemma_prefix_concat_injective("profile:"@, a, b);
    }
    if spec_login_key(a) == spec_login_key(b) {
        lemma_prefix_concat_injective("login:"@, a, b);
    }
    if spec_apptoken_key(a) == spec_apptoken_key(b) {
        lemma_prefix_concat_injective("apptoken:"@, a, b);
    }
}

#[verifier::external_type_specification]
#[verifier::external_body]
pub struct ExKeyringEntry(keyring::Entry);

#[verifier::external_type_specification]
#[verifier::external_body]
pub struct ExKeyringError(keyring::Error);

/// Relies on `keyring::Entry::new`: builds a handle on the platform secret
/// store for `(service, user)`, failing when the names are invalid for the
/// platform. Nothing can be promised of the outcome, which depends on the
/// machine's credential store.
pub assume_specification[ keyring::Entry::new ](service: &str, user: &str) -> (r: Result<
    keyring::Entry,
    keyring::Error,
>);

/// Relies on `keyring::Entry::set_password`: writes the value under the
/// entry's key; the outcome depends on the machine's credential store.
pub assume_specification[ keyring::Entry::set_password ](
    entry: &keyring::Entry,
    password: &str,
) -> (r: Result<(), keyring::Error>);

/// Relies on `keyring::Entry::get_password`: reads the value stored under
/// the entry's key, `NoEntry` when none is stored; the outcome depends on
/// the machine's credential store.
pub assume_specification[ keyring::Entry::get_password ](entry: &keyring::Entry) -> (r: Result<
    String,
    keyring::Error,
>);

/// Relies on `keyring::Entry::delete_credential`: removes the entry's
/// stored value; the outcome depends on the machine's credential store.
pub assume_specification[ keyring::Entry::delete_credential ](entry: &keyring::Entry) -> (r:
    Result<(), keyring::Error>);

/// Relies on `keyring::Error`'s `Display` implementation for the
/// human-readable description of a store failure.
#[verifier::external_body]
fn keyring_error_text(e: &keyring::Error) -> String {
    format!("{}", e)
}

/// A store error message: the fixed context prefix, then the store's own
/// description.
fn store_error(prefix: &str, e: &keyring::Error) -> (r: String)
    ensures
        spec_starts_with(r@, prefix@),
{
    let text = keyring_error_text(e);
    let mut out: Vec<char> = Vec::new();
    append_str(&mut out, prefix);
    append_str(&mut out, text.as_str());
    proof {
        assert(out@ =~= prefix@ + text@);
        lemma_starts_with_concat(prefix@, text@);
    }
    chars_to_string(&out)
}

/// Opens the store entry for one composite key under the fixed service
/// namespace.
fn open_entry(key: &str) -> (r: Result<keyring::Entry, String>)
    ensures
        r is Err ==> spec_starts_with(r->Err_0@, "Failed to create keyring entry: "@),
{
    let service = service_name();
    match keyring::Entry::new(service.as_str(), key) {
        Ok(e) => Ok(e),
        Err(e) => Err(store_error("Failed to create keyring entry: ", &e)),
    }
}

/// Writes a session-credentials record, as its canonical JSON text, under
/// `profile:<name>`. Whether the write succeeds is the store's to decide;
/// what is handed to the store is exactly the codec's encoding of
/// `credentials`, and every failure carries its context prefix.
pub fn save_credentials(profile_name: String, credentials: Credentials) -> (r: Result<
    (),
    String,
>)
    ensures
        r is Err ==> spec_starts_with(r->Err_0@, "Failed to create keyring entry: "@)
            || spec_starts_with(r->Err_0@, "Failed to save credentials to keyring: "@),
{
    let key = profile_key(profile_name.as_str());
    let entry = match open_entry(key.as_str()) {
        Ok(e) => e,
        Err(m) => {
            return Err(m);
        },
    };
    let json = credentials_to_json(&credentials);
    match entry.set_password(json.as_str()) {
        Ok(u) => Ok(u),
        Err(e) => Err(store_error("Failed to save credentials to keyring: ", &e)),
    }
}

/// Reads the session-credentials record under `profile:<name>` and decodes
/// it with the verified codec. A successful result is always the decoding
/// of some canonical record text; a store failure (a missing entry
/// included) and malformed text surface as errors with distinct prefixes.
pub fn load_credentials(profile_name: String) -> (r: Result<Credentials, String>)
    ensures
        r is Ok ==> exists|s: Seq<char>| spec_decode_credentials(s) == Some((r->Ok_0)@),
        r is Err ==> spec_starts_with(r->Err_0@, "Failed to create keyring entry: "@)
            || spec_starts_with(r->Err_0@, "Failed to load credentials from keyring: "@) || (
        r->Err_0)@ == "Failed to deserialize "@ + "credentials"@,
{
    let key = profile_key(profile_name.as_str());
    let entry = match open_entry(key.as_str()) {
        Ok(e) => e,
        Err(m) => {
            return Err(m);
        },
    };
    let json = match entry.get_password() {
        Ok(s) => s,
        Err(e) => {
            return Err(store_error("Failed to load credentials from keyring: ", &e));
        },
    };
    let r = credentials_from_json(json.as_str());
    proof {
        if r is Ok {
            assert(spec_decode_credentials(json@) == Some((r->Ok_0)@));
        }
    }
    r
}

/// Removes the session-credentials record under `profile:<name>`; removal
/// itself is the store's to decide, and every failure carries its context
/// prefix.
pub fn delete_credentials(profile_name: String) -> (r: Result<(), String>)
    ensures
        r is Err ==> spec_starts_with(r->Err_0@, "Failed to create keyring entry: "@)
            || spec_starts_with(r->Err_0@, "Failed to delete credentials from keyring: "@),
{
    let key = profile_key(profile_name.as_str());
    let entry = match open_entry(key.as_str()) {
        Ok(e) => e,
        Err(m) => {
            return Err(m);
        },
    };
    match entry.delete_credential() {
        Ok(u) => Ok(u),
        Err(e) => Err(store_error("Failed to delete credentials from keyring: ", &e)),
    }
}

/// Writes a username/password record, as its canonical JSON text, under
/// `login:<name>`; every failure carries its context prefix.
pub fn save_login_credentials(profile_name: String, credentials: LoginCredentials) -> (r: Result<
    (),
    String,
>)
    ensures
        r is Err ==> spec_starts_with(r->Err_0@, "Failed to create keyring entry: "@)
            || spec_starts_with(r->Err_0@, "Failed to save login credentials to keyring: "@),
{
    let key = login_key(profile_name.as_str());
    let entry = match open_entry(key.as_str()) {
        Ok(e) => e,
        Err(m) => {
            return Err(m);
        },
    };
    let json = login_credentials_to_json(&credentials);
    match entry.set_password(json.as_str()) {
        Ok(u) => Ok(u),
        Err(e) => Err(store_error("Failed to save login credentials to keyring: ", &e)),
    }
}

/// Reads and decodes the username/password record under `login:<name>`. A
/// successful result is always the decoding of some canonical record text;
/// a store failure (a missing entry included) and malformed text surface
/// as errors with distinct prefixes.
pub fn load_login_credentials(profile_name: String) -> (r: Result<LoginCredentials, String>)
    ensures
        r is Ok ==> exists|s: Seq<char>| spec_decode_login(s) == Some((r->Ok_0)@),
        r is Err ==> spec_starts_with(r->Err_0@, "Failed to create keyring entry: "@)
            || spec_starts_with(r->Err_0@, "Failed to load login credentials from keyring: "@)
            || (r->Err_0)@ == "Failed to deserialize "@ + "login credentials"@,
{
    let key = login_key(profile_name.as_str());
    let entry = match open_entry(key.as_str()) {
        Ok(e) => e,
        Err(m) => {
            return Err(m);
        },
    };
    let json = match entry.get_password() {
        Ok(s) => s,
        Err(e) => {
            return Err(store_error("Failed to load login credentials from keyring: ", &e));
        },
    };
    let r = login_credentials_from_json(json.as_str());
    proof {
        if r is Ok {
            assert(spec_decode_login(json@) == Some((r->Ok_0)@));
        }
    }
    r
}

/// Removes the username/password record under `login:<name>`; every
/// failure carries its context prefix.
pub fn delete_login_credentials(profile_name: String) -> (r: Result<(), String>)
    ensures
        r is Err ==> spec_starts_with(r->Err_0@, "Failed to create keyring entry: "@)
            || spec_starts_with(
            r->Err_0@,
            "Failed to delete login credentials from keyring: "@,
        ),
{
    let key = login_key(profile_name.as_str());
    let entry = match open_entry(key.as_str()) {
        Ok(e) => e,
        Err(m) => {
            return Err(m);
        },
    };
    match entry.delete_credential() {
        Ok(u) => Ok(u),
        Err(e) => Err(store_error("Failed to delete login credentials from keyring: ", &e)),
    }
}

/// Writes an app-token record, as its canonical JSON text, under
/// `apptoken:<name>`; every failure carries its context prefix.
pub fn save_apptoken_credentials(
    profile_name: String,
    credentials: AppTokenCredentials,
) -> (r: Result<(), String>)
    ensures
        r is Err ==> spec_starts_with(r->Err_0@, "Failed to create keyring entry: "@)
            || spec_starts_with(
            r->Err_0@,
            "Failed to save app token credentials to keyring: "@,
        ),
{
    let key = apptoken_key(profile_name.as_str());
    let entry = match open_entry(key.as_str()) {
        Ok(e) => e,
        Err(m) => {
            return Err(m);
        },
    };
    let json = apptoken_credentials_to_json(&credentials);
    match entry.set_password(json.as_str()) {
        Ok(u) => Ok(u),
        Err(e) => Err(store_error("Failed to save app token credentials to keyring: ", &e)),
    }
}

/// Reads and decodes the app-token record under `apptoken:<name>`.
pub fn load_apptoken_credentials(profile_name: String) -> Result<AppTokenCredentials, String> {
    let key = apptoken_key(profile_name.as_str());
    let entry = match open_entry(key.as_str()) {
        Ok(e) => e,
        Err(m) => {
            return Err(m);
        },
    };
    let json = match entry.get_password() {
        Ok(s) => s,
        Err(e) => {
            return Err(store_error("Failed to load app token credentials from keyring: ", &e));
        },
    };
    let r = apptoken_credentials_from_json(json.as_str());
    proof {
        if r is Ok {
            assert(spec_decode_apptoken(json@) == Some((r->Ok_0)@));
        }
    }
    r
}

/// Removes the app-token record under `apptoken:<name>`; every failure
/// carries its context prefix.
pub fn delete_apptoken_credentials(profile_name: String) -> (r: Result<(), String>)
    ensures
        r is Err ==> spec_starts_with(r->Err_0@, "Failed to create keyring entry: "@)
            || spec_starts_with(
            r->Err_0@,
            "Failed to delete app token credentials from keyring: "@,
        ),
{
    let key = apptoken_key(profile_name.as_str());
    let entry = match open_entry(key.as_str()) {
        Ok(e) => e,
        Err(m) => {
            return Err(m);
        },
    };
    match entry.delete_credential() {
        Ok(u) => Ok(u),
        Err(e) => Err(store_error("Failed to delete app token credentials from keyring: ", &e)),
    }
}

} // verus!
