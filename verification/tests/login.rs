//! End-to-end checks of the credential library through its public surface.

use twitch_login::config::{app_data_directory, get_config_directory, AppDir, Config};
use twitch_login::errors::Error;
use twitch_login::service::{
    complete_login, exchange_outcome, exchange_request, logged, persist_credential,
    resolve_user_outcome, resolve_user_request, AppConfig,
};
use twitch_login::twitch::{parse_token_response, parse_users_response, resolve_user};

fn full_config() -> AppConfig {
    AppConfig {
        client_id: Some("id1".to_string()),
        client_secret: Some("s&e c".to_string()),
        redirect_uri: Some("https://localhost/cb".to_string()),
    }
}

#[test]
fn round_trip_save_load() {
    let mut dir = AppDir::empty();
    let c = Config::new("bob".to_string(), "Bob".to_string(), "tok1".to_string());
    assert!(c.write(&mut dir).is_ok());
    let back = Config::from_file(&dir).unwrap();
    assert_eq!(back.get_username(), "bob");
    assert_eq!(back.get_display_name(), "Bob");
    assert_eq!(back.get_token(), "tok1");
}

#[test]
fn round_trip_with_escapes_and_unicode() {
    let mut dir = AppDir::empty();
    let c = Config::new(
        "a\"b\\c".to_string(),
        "B\u{f8}b \u{1f600}".to_string(),
        "to\"k\\en".to_string(),
    );
    assert!(c.write(&mut dir).is_ok());
    let back = Config::from_file(&dir).unwrap();
    assert_eq!(back.get_username(), "a\"b\\c");
    assert_eq!(back.get_display_name(), "B\u{f8}b \u{1f600}");
    assert_eq!(back.get_token(), "to\"k\\en");
}

#[test]
fn saved_document_is_the_exact_schema() {
    let mut dir = AppDir::empty();
    let c = Config::new("bob".to_string(), "Bob".to_string(), "tok1".to_string());
    assert!(c.write(&mut dir).is_ok());
    let expected = "{\"username\":\"bob\",\"display_name\":\"Bob\",\"token\":\"tok1\"}";
    assert_eq!(dir.contents().as_deref(), Some(expected.as_bytes()));
}

#[test]
fn exists_lifecycle() {
    let mut dir = AppDir::empty();
    assert!(!Config::exists_in(&dir));
    assert!(!logged(&dir));
    let c = Config::new("bob".to_string(), "Bob".to_string(), "tok1".to_string());
    assert!(c.write(&mut dir).is_ok());
    assert!(Config::exists_in(&dir));
    assert!(logged(&dir));
    assert!(Config::delete(&mut dir).is_ok());
    assert!(!Config::exists_in(&dir));
    assert!(!logged(&dir));
}

#[test]
fn delete_without_file_is_io_error() {
    let mut dir = AppDir::empty();
    assert!(matches!(Config::delete(&mut dir), Err(Error::IOError)));
}

#[test]
fn load_without_file_is_io_error() {
    let dir = AppDir::empty();
    assert!(matches!(Config::from_file(&dir), Err(Error::IOError)));
}

#[test]
fn load_not_json_is_decode_error() {
    let dir = AppDir::new(Some("not json".as_bytes().to_vec()));
    assert!(matches!(Config::from_file(&dir), Err(Error::DecodeError)));
}

#[test]
fn load_without_display_name_is_ok() {
    let body = "{\"username\":\"u1\",\"token\":\"t1\"}";
    let dir = AppDir::new(Some(body.as_bytes().to_vec()));
    let back = Config::from_file(&dir).unwrap();
    assert_eq!(back.get_username(), "u1");
    assert_eq!(back.get_token(), "t1");
    assert_eq!(back.get_display_name(), "");
}

#[test]
fn round_trip_with_control_characters() {
    let mut dir = AppDir::empty();
    let c = Config::new("u\n1".to_string(), "".to_string(), "t\t\u{1}1".to_string());
    assert!(c.write(&mut dir).is_ok());
    let expected =
        "{\"username\":\"u\\u000a1\",\"display_name\":\"\",\"token\":\"t\\u0009\\u00011\"}";
    assert_eq!(dir.contents().as_deref(), Some(expected.as_bytes()));
    let back = Config::from_file(&dir).unwrap();
    assert_eq!(back.get_username(), "u\n1");
    assert_eq!(back.get_display_name(), "");
    assert_eq!(back.get_token(), "t\t\u{1}1");
}

#[test]
fn load_accepts_short_escapes() {
    let body = "{\"username\":\"u\\n1\",\"display_name\":\"a\\/b\",\"token\":\"t\\t\\r\\b\\f1\"}";
    let dir = AppDir::new(Some(body.as_bytes().to_vec()));
    let back = Config::from_file(&dir).unwrap();
    assert_eq!(back.get_username(), "u\n1");
    assert_eq!(back.get_display_name(), "a/b");
    assert_eq!(back.get_token(), "t\t\r\u{8}\u{c}1");
}

#[test]
fn unicode_escape_outside_controls_is_decode_error() {
    let body = "{\"username\":\"\\u0041\",\"token\":\"t1\"}";
    let dir = AppDir::new(Some(body.as_bytes().to_vec()));
    assert!(matches!(Config::from_file(&dir), Err(Error::DecodeError)));
}

#[test]
fn load_fields_out_of_order_is_decode_error() {
    let body = "{\"token\":\"tok1\",\"username\":\"bob\",\"display_name\":\"Bob\"}";
    let dir = AppDir::new(Some(body.as_bytes().to_vec()));
    assert!(matches!(Config::from_file(&dir), Err(Error::DecodeError)));
}

#[test]
fn load_invalid_utf8_is_decode_error() {
    let dir = AppDir::new(Some(vec![0xff, 0xfe, 0x22]));
    assert!(matches!(Config::from_file(&dir), Err(Error::DecodeError)));
}

#[test]
fn resolve_zero_records_is_ambiguous() {
    let resp = parse_users_response("{\"data\":[]}").unwrap();
    assert_eq!(resp.get_data().len(), 0);
    assert!(matches!(resolve_user(&resp), Err(Error::AmbiguousIdentityError)));
}

#[test]
fn resolve_two_records_is_ambiguous() {
    let body = "{\"data\":[{\"id\":\"1\",\"login\":\"bob\",\"display_name\":\"Bob\"},{\"id\":\"2\",\"login\":\"ann\",\"display_name\":\"Ann\"}]}";
    let resp = parse_users_response(body).unwrap();
    let records = resp.get_data();
    assert_eq!(records.len(), 2);
    assert_eq!(records[0].get_login(), "bob");
    assert_eq!(records[1].get_login(), "ann");
    assert_eq!(records[1].get_id(), "2");
    assert!(matches!(resolve_user(&resp), Err(Error::AmbiguousIdentityError)));
}

#[test]
fn users_response_with_escaped_quote_is_unescaped() {
    let body = "{\"data\":[{\"id\":\"1\",\"login\":\"bo\\\"b\",\"display_name\":\"B\\\\ob\"}]}";
    let resp = parse_users_response(body).unwrap();
    let user = resolve_user(&resp).unwrap();
    assert_eq!(user.get_login(), "bo\"b");
    assert_eq!(user.get_display_name(), "B\\ob");
}

#[test]
fn resolve_one_record_returns_it_unchanged() {
    let body = "{\"data\":[{\"id\":\"1\",\"login\":\"bob\",\"display_name\":\"Bob\"}]}";
    let resp = parse_users_response(body).unwrap();
    let user = resolve_user(&resp).unwrap();
    assert_eq!(user.get_id(), "1");
    assert_eq!(user.get_login(), "bob");
    assert_eq!(user.get_display_name(), "Bob");
}

#[test]
fn users_response_outside_schema_is_decode_error() {
    assert!(matches!(parse_users_response("not json"), Err(Error::DecodeError)));
    assert!(matches!(parse_users_response("{\"data\":[]} "), Err(Error::DecodeError)));
    assert!(matches!(
        parse_users_response("{\"data\":[{\"id\":\"1\",\"login\":\"bob\"}]}"),
        Err(Error::DecodeError)
    ));
}

#[test]
fn token_response_missing_access_token_is_decode_error() {
    let body = "{\"expires_in\":14400,\"refresh_token\":\"ref1\"}";
    assert!(matches!(parse_token_response(body), Err(Error::DecodeError)));
    assert!(matches!(
        exchange_outcome(Some(body.to_string())),
        Err(Error::DecodeError)
    ));
}

#[test]
fn token_response_well_formed_is_returned_unchanged() {
    let body = "{\"access_token\":\"tok1\",\"expires_in\":14400,\"refresh_token\":\"ref1\"}";
    let t = parse_token_response(body).unwrap();
    assert_eq!(t.get_access_token(), "tok1");
    assert_eq!(t.get_expires_in(), 14400);
    assert_eq!(t.get_refresh_token(), "ref1");
}

#[test]
fn token_response_zero_expiry_is_decode_error() {
    let body = "{\"access_token\":\"tok1\",\"expires_in\":0,\"refresh_token\":\"ref1\"}";
    assert!(matches!(parse_token_response(body), Err(Error::DecodeError)));
}

#[test]
fn token_response_expiry_beyond_u64_is_decode_error() {
    let body = "{\"access_token\":\"tok1\",\"expires_in\":99999999999999999999999,\
\"refresh_token\":\"ref1\"}";
    assert!(matches!(parse_token_response(body), Err(Error::DecodeError)));
}

#[test]
fn transport_failure_is_transport_error() {
    assert!(matches!(exchange_outcome(None), Err(Error::TransportError)));
    assert!(matches!(resolve_user_outcome(None), Err(Error::TransportError)));
}

#[test]
fn exchange_request_builds_the_form_body() {
    let req = exchange_request(&full_config(), "abc123").unwrap();
    assert_eq!(req.url, "https://id.twitch.tv/oauth2/token");
    let expected = "client_id=id1&client_secret=s%26e%20c&code=abc123\
&grant_type=authorization_code&redirect_uri=https%3A%2F%2Flocalhost%2Fcb";
    assert_eq!(req.body, expected.as_bytes().to_vec());
}

#[test]
fn exchange_request_without_client_id_is_config_error() {
    let cfg = AppConfig {
        client_id: None,
        client_secret: Some("s".to_string()),
        redirect_uri: Some("r".to_string()),
    };
    assert!(matches!(exchange_request(&cfg, "abc123"), Err(Error::ConfigError)));
    let cfg2 = AppConfig {
        client_id: Some("id1".to_string()),
        client_secret: None,
        redirect_uri: Some("r".to_string()),
    };
    assert!(matches!(exchange_request(&cfg2, "abc123"), Err(Error::ConfigError)));
}

#[test]
fn resolve_user_request_carries_the_headers() {
    let req = resolve_user_request(&full_config(), "tok1").unwrap();
    assert_eq!(req.url, "https://api.twitch.tv/helix/users");
    assert_eq!(req.client_id, "id1");
    assert_eq!(req.bearer, "Bearer tok1");
    let cfg = AppConfig { client_id: None, client_secret: None, redirect_uri: None };
    assert!(matches!(resolve_user_request(&cfg, "tok1"), Err(Error::ConfigError)));
}

#[test]
fn end_to_end_login_persists_the_credential() {
    let mut dir = AppDir::empty();
    let token_body = "{\"access_token\":\"tok1\",\"expires_in\":14400,\"refresh_token\":\"ref1\"}";
    let users_body = "{\"data\":[{\"id\":\"1\",\"login\":\"bob\",\"display_name\":\"Bob\"}]}";
    let r = complete_login(
        &full_config(),
        Some(token_body.to_string()),
        Some(users_body.to_string()),
        &mut dir,
    );
    assert!(r.is_ok());
    let expected = "{\"username\":\"bob\",\"display_name\":\"Bob\",\"token\":\"tok1\"}";
    assert_eq!(dir.contents().as_deref(), Some(expected.as_bytes()));
    assert!(logged(&dir));
    let back = Config::from_file(&dir).unwrap();
    assert_eq!(back.get_username(), "bob");
    assert_eq!(back.get_token(), "tok1");
}

#[test]
fn login_without_client_id_writes_nothing() {
    let mut dir = AppDir::empty();
    let cfg = AppConfig {
        client_id: None,
        client_secret: Some("s".to_string()),
        redirect_uri: Some("r".to_string()),
    };
    let token_body = "{\"access_token\":\"tok1\",\"expires_in\":14400,\"refresh_token\":\"ref1\"}";
    let users_body = "{\"data\":[{\"id\":\"1\",\"login\":\"bob\",\"display_name\":\"Bob\"}]}";
    let r = complete_login(
        &cfg,
        Some(token_body.to_string()),
        Some(users_body.to_string()),
        &mut dir,
    );
    assert!(matches!(r, Err(Error::ConfigError)));
    assert!(!logged(&dir));
    assert!(dir.contents().is_none());
}

#[test]
fn login_with_ambiguous_identity_writes_nothing() {
    let mut dir = AppDir::empty();
    let token_body = "{\"access_token\":\"tok1\",\"expires_in\":14400,\"refresh_token\":\"ref1\"}";
    let users_body = "{\"data\":[]}";
    let r = complete_login(
        &full_config(),
        Some(token_body.to_string()),
        Some(users_body.to_string()),
        &mut dir,
    );
    assert!(matches!(r, Err(Error::AmbiguousIdentityError)));
    assert!(dir.contents().is_none());
}

#[test]
fn persist_credential_stores_login_and_token() {
    let mut dir = AppDir::empty();
    let body = "{\"data\":[{\"id\":\"1\",\"login\":\"ann\",\"display_name\":\"Ann\"}]}";
    let resp = parse_users_response(body).unwrap();
    let user = resolve_user(&resp).unwrap();
    assert!(persist_credential(&user, "tok9".to_string(), &mut dir).is_ok());
    let back = Config::from_file(&dir).unwrap();
    assert_eq!(back.get_username(), "ann");
    assert_eq!(back.get_display_name(), "Ann");
    assert_eq!(back.get_token(), "tok9");
}

#[test]
fn paths_are_joined_with_the_fixed_names() {
    assert_eq!(get_config_directory("/tmp/app"), "/tmp/app/config.json");
    assert_eq!(app_data_directory("/home/u"), "/home/u/.local/share/RustTwitchChat");
}

#[test]
fn error_messages_name_each_kind() {
    assert_eq!(Error::IOError.message(), "file system error");
    assert_eq!(Error::ConfigError.message(), "missing configuration value");
    assert_eq!(Error::TransportError.message(), "network transport error");
    assert_eq!(Error::DecodeError.message(), "malformed document");
    assert_eq!(
        Error::AmbiguousIdentityError.message(),
        "cannot resolve exactly one user"
    );
}
