//! Verified core of a small desktop-reporting backend: credential records
//! stored as JSON in the OS keychain, an OData-aware URL and header builder
//! for a reporting API, and a semantic-version update check.

use vstd::prelude::*;

pub mod strutil;
pub mod version;
pub mod odata;
pub mod headers;
pub mod rest;
pub mod json;
pub mod store;

verus! {

/// Session credentials from a successful authentication, in one of two
/// authentication modes. `auth_mode` is `"credential"` or `"apptoken"`; by
/// convention only the field pair matching the mode is meaningful.
#[derive(Debug, Clone, PartialEq)]
pub struct Credentials {
    pub base_url: String,
    pub auth_mode: String,
    pub user_id: Option<i32>,
    pub auth_token: Option<String>,
    pub app_token: Option<String>,
    pub username: Option<String>,
}

/// Stored username/password pair; never sent over the wire by this library.
#[derive(Debug, Clone, PartialEq)]
pub struct LoginCredentials {
    pub username: String,
    pub password: String,
}

/// Stored application-token pair for the app-token authentication mode.
#[derive(Debug, Clone, PartialEq)]
pub struct AppTokenCredentials {
    pub app_token: String,
    pub username: String,
}

/// The mathematical content of a [`Credentials`] record.
pub struct CredentialsView {
    pub base_url: Seq<char>,
    pub auth_mode: Seq<char>,
    pub user_id: Option<int>,
    pub auth_token: Option<Seq<char>>,
    pub app_token: Option<Seq<char>>,
    pub username: Option<Seq<char>>,
}

impl CredentialsView {
    /// A stored record's user id always fits in 32 signed bits.
    pub open spec fn wf(self) -> bool {
        match self.user_id {
            Some(n) => i32::MIN <= n <= i32::MAX,
            None => true,
        }
    }
}

impl View for Credentials {
    type V = CredentialsView;

    open spec fn view(&self) -> CredentialsView {
        CredentialsView {
            base_url: self.base_url@,
            auth_mode: self.auth_mode@,
            user_id: match self.user_id {
                Some(n) => Some(n as int),
                None => None,
            },
            auth_token: match self.auth_token {
                Some(t) => Some(t@),
                None => None,
            },
            app_token: match self.app_token {
                Some(t) => Some(t@),
                None => None,
            },
            username: match self.username {
                Some(t) => Some(t@),
                None => None,
            },
        }
    }
}

/// The mathematical content of a [`LoginCredentials`] record.
pub struct LoginCredentialsView {
    pub username: Seq<char>,
    pub password: Seq<char>,
}

impl View for LoginCredentials {
    type V = LoginCredentialsView;

    open spec fn view(&self) -> LoginCredentialsView {
        LoginCredentialsView { username: self.username@, password: self.password@ }
    }
}

/// The mathematical content of an [`AppTokenCredentials`] record.
pub struct AppTokenCredentialsView {
    pub app_token: Seq<char>,
    pub username: Seq<char>,
}

impl View for AppTokenCredentials {
    type V = AppTokenCredentialsView;

    open spec fn view(&self) -> AppTokenCredentialsView {
        AppTokenCredentialsView { app_token: self.app_token@, username: self.username@ }
    }
}

/// A completed HTTP exchange: numeric status, raw body text, and the
/// response headers (keys unique, case as received).
#[derive(Debug, Clone)]
pub struct HttpResponse {
    pub status: u16,
    pub body: String,
    pub headers: std::collections::HashMap<String, String>,
}

/// Outcome of an update check against the release-hosting API.
#[derive(Debug, Clone, PartialEq)]
pub struct VersionInfo {
    pub current_version: String,
    pub latest_version: Option<String>,
    pub update_available: bool,
    pub release_url: Option<String>,
    pub release_notes: Option<String>,
}

} // verus!
