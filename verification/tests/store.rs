use nimbus_reports::{AppTokenCredentials, Credentials, LoginCredentials};
use nimbus_reports::json::{
    apptoken_credentials_from_json, apptoken_credentials_to_json, credentials_from_json,
    credentials_to_json, login_credentials_from_json, login_credentials_to_json,
};
use nimbus_reports::store::{
    apptoken_key, delete_credentials, load_apptoken_credentials, load_credentials,
    load_login_credentials, login_key, profile_key, save_credentials, service_name,
};

fn sample_credentials() -> Credentials {
    Credentials {
        base_url: String::from("https://nimbus.example.edu"),
        auth_mode: String::from("credential"),
        user_id: Some(42),
        auth_token: Some(String::from("tok-123")),
        app_token: None,
        username: None,
    }
}

// The store tests run against the keyring crate's in-memory mock store (the
// build enables no platform back end), which keeps nothing across entries:
// they exercise the real call path and the error surface, while the
// save-then-load equality itself is covered by the codec round trips below
// and proved for all records in the library.

#[test]
fn save_credentials_reaches_the_store() {
    let c = sample_credentials();
    assert_eq!(save_credentials(String::from("rt"), c), Ok(()));
}

#[test]
fn load_of_missing_profile_is_a_not_found_error() {
    let err = load_credentials(String::from("nobody")).unwrap_err();
    assert!(err.starts_with("Failed to load credentials from keyring:"), "{err}");
    let err = load_login_credentials(String::from("nobody")).unwrap_err();
    assert!(err.starts_with("Failed to load login credentials from keyring:"), "{err}");
    let err = load_apptoken_credentials(String::from("nobody")).unwrap_err();
    assert!(err.starts_with("Failed to load app token credentials from keyring:"), "{err}");
}

#[test]
fn delete_of_missing_profile_is_an_error() {
    let err = delete_credentials(String::from("nobody")).unwrap_err();
    assert!(err.starts_with("Failed to delete credentials from keyring:"), "{err}");
}

#[test]
fn kinds_use_disjoint_keys_under_one_service() {
    assert_eq!(service_name(), "monash-nimbus-reports");
    let name = "shared";
    assert_eq!(profile_key(name), "profile:shared");
    assert_eq!(login_key(name), "login:shared");
    assert_eq!(apptoken_key(name), "apptoken:shared");
    assert_ne!(profile_key(name), login_key(name));
    assert_ne!(profile_key(name), apptoken_key(name));
    assert_ne!(login_key(name), apptoken_key(name));
    assert_ne!(profile_key("a"), profile_key("b"));
}

#[test]
fn credentials_json_round_trips() {
    let c = sample_credentials();
    let json = credentials_to_json(&c);
    assert_eq!(
        json,
        "{\"base_url\":\"https://nimbus.example.edu\",\"auth_mode\":\"credential\",\"user_id\":42,\"auth_token\":\"tok-123\"}"
    );
    assert_eq!(credentials_from_json(&json).unwrap(), c);
}

#[test]
fn credentials_json_skips_absent_fields_and_keeps_negative_ids() {
    let c = Credentials {
        base_url: String::from("b"),
        auth_mode: String::from("apptoken"),
        user_id: Some(-7),
        auth_token: None,
        app_token: Some(String::from("at")),
        username: Some(String::from("un")),
    };
    let json = credentials_to_json(&c);
    assert_eq!(
        json,
        "{\"base_url\":\"b\",\"auth_mode\":\"apptoken\",\"user_id\":-7,\"app_token\":\"at\",\"username\":\"un\"}"
    );
    assert_eq!(credentials_from_json(&json).unwrap(), c);
}

#[test]
fn login_json_escapes_and_round_trips() {
    let c = LoginCredentials {
        username: String::from("a\"b"),
        password: String::from("c\\d\u{8}\u{c}\u{1f}\nwith\té"),
    };
    let json = login_credentials_to_json(&c);
    assert_eq!(
        json,
        "{\"username\":\"a\\\"b\",\"password\":\"c\\\\d\\b\\f\\u001f\\nwith\\té\"}"
    );
    assert_eq!(login_credentials_from_json(&json).unwrap(), c);
}

#[test]
fn apptoken_json_round_trips() {
    let c = AppTokenCredentials {
        app_token: String::from("tok"),
        username: String::from("user"),
    };
    let json = apptoken_credentials_to_json(&c);
    assert_eq!(json, "{\"app_token\":\"tok\",\"username\":\"user\"}");
    assert_eq!(apptoken_credentials_from_json(&json).unwrap(), c);
}

#[test]
fn extreme_user_ids_round_trip() {
    let c = Credentials {
        base_url: String::from("b"),
        auth_mode: String::from("credential"),
        user_id: Some(i32::MIN),
        auth_token: None,
        app_token: None,
        username: None,
    };
    let json = credentials_to_json(&c);
    assert_eq!(
        json,
        "{\"base_url\":\"b\",\"auth_mode\":\"credential\",\"user_id\":-2147483648}"
    );
    assert_eq!(credentials_from_json(&json).unwrap(), c);
    let big = "{\"base_url\":\"b\",\"auth_mode\":\"credential\",\"user_id\":2147483648}";
    assert!(credentials_from_json(big).is_err());
}

#[test]
fn malformed_records_are_rejected() {
    assert_eq!(
        credentials_from_json("garbage").unwrap_err(),
        "Failed to deserialize credentials"
    );
    assert_eq!(
        login_credentials_from_json("garbage").unwrap_err(),
        "Failed to deserialize login credentials"
    );
    assert_eq!(
        apptoken_credentials_from_json("garbage").unwrap_err(),
        "Failed to deserialize app token credentials"
    );
    assert!(credentials_from_json("{\"base_url\":\"b\"").is_err());
    assert!(login_credentials_from_json("{\"username\":\"a\"}").is_err());
    assert!(apptoken_credentials_from_json("").is_err());
    assert!(credentials_from_json("{\"base_url\":\"b\",\"auth_mode\":\"m\"}trailing").is_err());
}
