use chrono::TimeZone;
use nxcmdr::error::{Error, Field, Setting};
use nxcmdr::models::MasterKey;
use nxcmdr::records::{BWErrorModel, PreLoginResponse, Profile, SyncResponse, TokenResponse};
use nxcmdr::service::{
    apply_refresh, bearer_token, get_full_sync, get_iterations, get_new_token, get_revision_date,
    iterations_request, new_token, refresh_request, refresh_token, token_request,
};

fn blank() -> TokenResponse {
    TokenResponse {
        access_token: None,
        expires_in: None,
        token_type: None,
        refresh_token: None,
        scope: None,
        private_key: None,
        key: None,
        reset_password: None,
        kdf: None,
        iterations: None,
        error: None,
        error_description: None,
        error_model: None,
        last_saved: None,
        master_key: None,
    }
}

fn full(tag: &str) -> TokenResponse {
    TokenResponse {
        access_token: Some(format!("access-{}", tag)),
        expires_in: Some(3600),
        token_type: Some(format!("type-{}", tag)),
        refresh_token: Some(format!("refresh-{}", tag)),
        scope: Some(format!("scope-{}", tag)),
        private_key: Some(format!("private-{}", tag)),
        key: Some(format!("key-{}", tag)),
        reset_password: Some(false),
        kdf: Some(0),
        iterations: Some(100000),
        error: Some(format!("error-{}", tag)),
        error_description: Some(format!("description-{}", tag)),
        error_model: None,
        last_saved: Some(format!("saved-{}", tag)),
        master_key: Some(format!("master-{}", tag)),
    }
}

fn master() -> MasterKey {
    MasterKey { key: (0u8..32).collect(), hash: "the-hash".to_string() }
}

fn snapshot(rev_date: Option<i64>) -> SyncResponse {
    let key = nxcmdr::models::CipherString {
        enc_type: 2,
        mac: vec![],
        iv: vec![],
        data: vec![],
        raw: Some("2.||".to_string()),
    };
    SyncResponse {
        rev_date,
        profile: Profile { email: "a@b.com".to_string(), key },
        ciphers: Vec::new(),
        collections: Vec::new(),
        domains: serde_json::Value::Null,
        folders: vec![serde_json::Value::Bool(true)],
    }
}

#[test]
fn bearer_token_is_the_access_token() {
    let token = full("a");
    assert_eq!(bearer_token(&token), Ok(&"access-a".to_string()));
    assert_eq!(bearer_token(&blank()), Err(Error::Record(Field::AccessToken)));
}

#[test]
fn revision_date_is_in_whole_seconds() {
    assert_eq!(get_revision_date(1609502400123), Ok(1609502400));
    assert_eq!(get_revision_date(1609502400999), Ok(1609502400));
    assert_eq!(get_revision_date(999), Ok(0));
    assert_eq!(get_revision_date(0), Ok(0));
    assert_eq!(get_revision_date(-1), Ok(0));
    assert_eq!(get_revision_date(-1000), Ok(-1));
    assert_eq!(get_revision_date(-1500), Ok(-1));
    assert_eq!(get_revision_date(-2001), Ok(-2));
}

#[test]
fn revision_date_is_accepted_up_to_the_ends_of_the_calendar() {
    let first: i64 = -8_334_601_228_800;
    let last: i64 = 8_210_266_876_799;
    assert_eq!(get_revision_date(last * 1000), Ok(last));
    assert_eq!(get_revision_date(last * 1000 + 999), Ok(last));
    assert_eq!(get_revision_date((last + 1) * 1000), Err(Error::Record(Field::RevisionDate)));
    assert_eq!(get_revision_date(first * 1000), Ok(first));
    assert_eq!(get_revision_date(first * 1000 - 999), Ok(first));
    assert_eq!(get_revision_date((first - 1) * 1000), Err(Error::Record(Field::RevisionDate)));
    assert_eq!(nxcmdr::clock::FIRST_SECOND, first);
    assert_eq!(nxcmdr::clock::LAST_SECOND, last);
}

#[test]
fn representable_seconds_are_those_that_the_calendar_holds() {
    let first = nxcmdr::clock::FIRST_SECOND;
    let last = nxcmdr::clock::LAST_SECOND;
    for secs in [first - 1, first, first + 1, -1, 0, 1, 1609502400, last - 1, last, last + 1] {
        let held = chrono::Utc.timestamp_opt(secs, 0).single().map(|date| date.timestamp());
        assert_eq!(nxcmdr::clock::representable(secs), held == Some(secs));
        assert_eq!(nxcmdr::clock::representable(secs), held.is_some());
    }
    assert!(!nxcmdr::clock::representable(i64::MIN));
    assert!(!nxcmdr::clock::representable(i64::MAX));
}

#[test]
fn revision_date_beyond_the_calendar_is_a_failure() {
    assert_eq!(get_revision_date(i64::MAX), Err(Error::Record(Field::RevisionDate)));
    assert_eq!(get_revision_date(i64::MIN), Err(Error::Record(Field::RevisionDate)));
}

#[test]
fn full_sync_carries_the_revision() {
    let data = get_full_sync(1609502400, snapshot(None));
    assert_eq!(data.rev_date, Some(1609502400));
    assert_eq!(data.profile.email, "a@b.com");
    assert_eq!(data.folders, vec![serde_json::Value::Bool(true)]);
    let data = get_full_sync(7, snapshot(Some(3)));
    assert_eq!(data.rev_date, Some(7));
}

#[test]
fn iterations_request_names_the_email() {
    assert_eq!(iterations_request("a@b.com").email, "a@b.com");
}

#[test]
fn iterations_come_from_the_answer() {
    let answer = PreLoginResponse { kdf: Some(0), iterations: Some(100000), error: None };
    assert_eq!(get_iterations(&answer), Ok(100000));
}

#[test]
fn iterations_answer_with_error_is_a_service_failure() {
    let answer =
        PreLoginResponse { kdf: Some(0), iterations: Some(100000), error: Some("denied".to_string()) };
    assert_eq!(get_iterations(&answer), Err(Error::Service { message: "denied".to_string() }));
}

#[test]
fn iterations_answer_without_count_is_a_failure() {
    let answer = PreLoginResponse { kdf: Some(0), iterations: None, error: None };
    assert_eq!(get_iterations(&answer), Err(Error::Record(Field::Iterations)));
}

#[test]
fn token_request_has_fixed_device_identity() {
    let payload = token_request("a@b.com", &master(), "042").unwrap();
    assert_eq!(payload.grant_type, "password");
    assert_eq!(payload.username, "a@b.com");
    assert_eq!(payload.password, "the-hash");
    assert_eq!(payload.scope, "api offline_access");
    assert_eq!(payload.client_id, "web");
    assert_eq!(payload.device_type, 10);
    assert_eq!(payload.device_id, "7d52408d-883d-4ed1-8dbb-fc6ff1a16c38");
    assert_eq!(payload.device_name, "firefox");
    assert_eq!(payload.two_factor_token, 42);
    assert_eq!(payload.two_factor_provider, 0);
    assert_eq!(payload.two_factor_remember, 0);
}

#[test]
fn token_request_with_code_that_is_no_number_is_a_failure() {
    for code in ["", "12a", "1.5", "-3", " 1"] {
        assert_eq!(
            token_request("a@b.com", &master(), code).unwrap_err(),
            Error::Configuration(Setting::TwoFactorCode)
        );
    }
}

#[test]
fn new_token_is_stamped_and_holds_the_master_key() {
    let token = new_token(full("a"), &master(), "the-stamp".to_string()).unwrap();
    assert_eq!(token.last_saved, Some("the-stamp".to_string()));
    assert_eq!(
        token.master_key,
        Some("AAECAwQFBgcICQoLDA0ODxAREhMUFRYXGBkaGxwdHh8=".to_string())
    );
    assert_eq!(token.access_token, Some("access-a".to_string()));
    assert_eq!(token.refresh_token, Some("refresh-a".to_string()));
    assert_eq!(token.expires_in, Some(3600));
    assert_eq!(token.key, Some("key-a".to_string()));
    assert_eq!(token.private_key, Some("private-a".to_string()));
    assert_eq!(token.error, Some("error-a".to_string()));
}

#[test]
fn new_token_from_answer_with_error_is_a_service_failure() {
    let mut answer = full("a");
    answer.error_model =
        Some(BWErrorModel { message: Some("bad credentials".to_string()), object: None });
    assert_eq!(
        new_token(answer, &master(), "stamp".to_string()).unwrap_err(),
        Error::Service { message: "bad credentials".to_string() }
    );
    let mut answer = full("a");
    answer.error_model = Some(BWErrorModel { message: None, object: None });
    assert_eq!(
        get_new_token(answer, &master()).unwrap_err(),
        Error::Service { message: "Unknown error".to_string() }
    );
}

#[test]
fn get_new_token_stamps_with_the_current_time() {
    let token = get_new_token(full("a"), &master()).unwrap();
    let stamp = token.last_saved.clone().unwrap();
    assert!(stamp.parse::<chrono::DateTime<chrono::Local>>().is_ok());
    assert!(stamp.ends_with(" UTC"));
    assert_ne!(stamp, "saved-a");
    assert_eq!(
        token.master_key,
        Some("AAECAwQFBgcICQoLDA0ODxAREhMUFRYXGBkaGxwdHh8=".to_string())
    );
}

#[test]
fn refresh_request_presents_the_refresh_token() {
    let payload = refresh_request(&full("a")).unwrap();
    assert_eq!(payload.grant_type, "refresh_token");
    assert_eq!(payload.client_id, "web");
    assert_eq!(payload.refresh_token, "refresh-a");
    assert_eq!(refresh_request(&blank()).unwrap_err(), Error::Record(Field::RefreshToken));
}

#[test]
fn refresh_replaces_the_token_fields_and_keeps_the_rest() {
    let mut token = full("old");
    let mut answer = full("new");
    answer.expires_in = Some(60);
    assert_eq!(apply_refresh(&mut token, answer, "the-stamp".to_string()), Ok(()));
    assert_eq!(token.access_token, Some("access-new".to_string()));
    assert_eq!(token.expires_in, Some(60));
    assert_eq!(token.token_type, Some("type-new".to_string()));
    assert_eq!(token.refresh_token, Some("refresh-new".to_string()));
    assert_eq!(token.scope, Some("scope-new".to_string()));
    assert_eq!(token.last_saved, Some("the-stamp".to_string()));
    assert_eq!(token.private_key, Some("private-old".to_string()));
    assert_eq!(token.key, Some("key-old".to_string()));
    assert_eq!(token.master_key, Some("master-old".to_string()));
    assert_eq!(token.error, Some("error-old".to_string()));
    assert_eq!(token.error_description, Some("description-old".to_string()));
    assert_eq!(token.iterations, Some(100000));
}

#[test]
fn refresh_takes_over_absent_fields_too() {
    let mut token = full("old");
    assert_eq!(apply_refresh(&mut token, blank(), "the-stamp".to_string()), Ok(()));
    assert_eq!(token.access_token, None);
    assert_eq!(token.refresh_token, None);
    assert_eq!(token.expires_in, None);
    assert_eq!(token.master_key, Some("master-old".to_string()));
}

#[test]
fn refused_refresh_leaves_the_record_untouched() {
    let mut token = full("old");
    let mut answer = full("new");
    answer.error_model = Some(BWErrorModel { message: Some("expired".to_string()), object: None });
    assert_eq!(
        apply_refresh(&mut token, answer, "the-stamp".to_string()),
        Err(Error::Service { message: "expired".to_string() })
    );
    assert_eq!(token.access_token, Some("access-old".to_string()));
    assert_eq!(token.refresh_token, Some("refresh-old".to_string()));
    assert_eq!(token.last_saved, Some("saved-old".to_string()));

    let mut answer = full("new");
    answer.error_model = Some(BWErrorModel { message: None, object: None });
    assert_eq!(
        refresh_token(&mut token, answer),
        Err(Error::Service { message: "Unknown error".to_string() })
    );
    assert_eq!(token.access_token, Some("access-old".to_string()));
    assert_eq!(token.last_saved, Some("saved-old".to_string()));
}

#[test]
fn refresh_token_stamps_with_the_current_time() {
    let mut token = full("old");
    assert_eq!(refresh_token(&mut token, full("new")), Ok(()));
    assert_eq!(token.access_token, Some("access-new".to_string()));
    let stamp = token.last_saved.clone().unwrap();
    assert!(stamp.parse::<chrono::DateTime<chrono::Local>>().is_ok());
    assert_eq!(token.master_key, Some("master-old".to_string()));
}
