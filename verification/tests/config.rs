use nxcmdr::config::{Config, Environment};
use nxcmdr::error::{Error, Segment, Setting};
use nxcmdr::models::SessionKey;

const KEY_TEXT: &str =
    "AAECAwQFBgcICQoLDA0ODxAREhMUFRYXGBkaGxwdHh8gISIjJCUmJygpKissLS4vMDEyMzQ1Njc4OTo7PD0+Pw==";

fn environment() -> Environment {
    Environment {
        config_dir: None,
        home: Some("/home/user".to_string()),
        session_key: Some(KEY_TEXT.to_string()),
        skip_session_gen: false,
        bw_user: Some("a@b.com".to_string()),
        bw_pass: None,
        bw_tfa: Some("123456".to_string()),
    }
}

#[test]
fn config_dir_defaults_to_a_directory_under_home() {
    let mut env = environment();
    let (config, generated) = Config::load(&mut env, false).unwrap();
    assert_eq!(config.config_dir, "/home/user/.config/nxcmdr");
    assert!(!generated);
}

#[test]
fn named_config_dir_is_taken_as_it_is() {
    let mut env = environment();
    env.config_dir = Some("/tmp/cache".to_string());
    let (config, _) = Config::load(&mut env, false).unwrap();
    assert_eq!(config.config_dir, "/tmp/cache");
    env.home = None;
    let (config, _) = Config::load(&mut env, false).unwrap();
    assert_eq!(config.config_dir, "/tmp/cache");
}

#[test]
fn config_without_any_directory_is_a_failure() {
    let mut env = environment();
    env.home = None;
    assert_eq!(
        Config::load(&mut env, false).unwrap_err(),
        Error::Configuration(Setting::ConfigDir)
    );
    assert_eq!(
        Config::load(&mut env, true).unwrap_err(),
        Error::Configuration(Setting::ConfigDir)
    );
    assert_eq!(env.session_key, Some(KEY_TEXT.to_string()));
    assert!(!env.skip_session_gen);
}

#[test]
fn known_session_key_is_read() {
    let mut env = environment();
    let (config, generated) = Config::load(&mut env, false).unwrap();
    assert!(!generated);
    assert_eq!(config.session_key.to_string(), KEY_TEXT);
    assert_eq!(env.session_key, Some(KEY_TEXT.to_string()));
    assert!(!env.skip_session_gen);
}

#[test]
fn values_given_in_advance_are_taken_over() {
    let mut env = environment();
    let (config, _) = Config::load(&mut env, false).unwrap();
    assert_eq!(config.bw_user, Some("a@b.com".to_string()));
    assert_eq!(config.bw_pass, None);
    assert_eq!(config.bw_tfa, Some("123456".to_string()));
}

#[test]
fn missing_session_key_is_generated_and_recorded() {
    let mut env = environment();
    env.session_key = None;
    let (config, generated) = Config::load(&mut env, false).unwrap();
    assert!(generated);
    assert_eq!(config.session_key.to_string().len(), 88);
    assert_eq!(env.session_key, Some(config.session_key.to_string()));
    assert!(env.skip_session_gen);
    assert_eq!(env.home, Some("/home/user".to_string()));
    assert_eq!(env.bw_user, Some("a@b.com".to_string()));

    let (again, generated) = Config::load(&mut env, false).unwrap();
    assert!(!generated);
    assert_eq!(again.session_key.to_string(), config.session_key.to_string());
}

#[test]
fn reset_generates_a_new_session_key_once_per_run() {
    let mut env = environment();
    let (first, generated) = Config::load(&mut env, true).unwrap();
    assert!(generated);
    assert_ne!(first.session_key.to_string(), KEY_TEXT);
    assert_eq!(env.session_key, Some(first.session_key.to_string()));
    assert!(env.skip_session_gen);

    let (second, generated) = Config::load(&mut env, true).unwrap();
    assert!(!generated);
    assert_eq!(second.session_key.to_string(), first.session_key.to_string());
}

#[test]
fn reset_with_skip_and_no_key_still_generates_one() {
    let mut env = environment();
    env.session_key = None;
    env.skip_session_gen = true;
    let (config, generated) = Config::load(&mut env, true).unwrap();
    assert!(generated);
    assert_eq!(env.session_key, Some(config.session_key.to_string()));
}

#[test]
fn unreadable_session_key_is_a_failure() {
    let mut env = environment();
    env.session_key = Some("not base64!".to_string());
    assert_eq!(Config::load(&mut env, false).unwrap_err(), Error::Encoding(Segment::Key));
    assert_eq!(env.session_key, Some("not base64!".to_string()));
    env.session_key = Some("aGVsbG8=".to_string());
    assert_eq!(Config::load(&mut env, false).unwrap_err(), Error::KeyDerivation);
}

#[test]
fn unreadable_session_key_is_replaced_on_reset() {
    let mut env = environment();
    env.session_key = Some("not base64!".to_string());
    let (config, generated) = Config::load(&mut env, true).unwrap();
    assert!(generated);
    assert_eq!(env.session_key, Some(config.session_key.to_string()));
}

fn fresh() -> Option<SessionKey> {
    Some(SessionKey::from_seed(&(100u8..164).collect()).unwrap())
}

#[test]
fn load_with_takes_the_fresh_key_where_one_is_to_be_generated() {
    let expected = fresh().unwrap().to_string();
    let mut env = environment();
    env.session_key = None;
    let (config, generated) = Config::load_with(&mut env, false, fresh()).unwrap();
    assert!(generated);
    assert_eq!(config.session_key.to_string(), expected);
    assert_eq!(env.session_key, Some(expected.clone()));
    assert!(env.skip_session_gen);

    let mut env = environment();
    let (config, generated) = Config::load_with(&mut env, true, fresh()).unwrap();
    assert!(generated);
    assert_eq!(config.session_key.to_string(), expected);
    assert_eq!(env.session_key, Some(expected));
}

#[test]
fn load_with_leaves_the_fresh_key_where_one_is_known() {
    let mut env = environment();
    let (config, generated) = Config::load_with(&mut env, false, fresh()).unwrap();
    assert!(!generated);
    assert_eq!(config.session_key.to_string(), KEY_TEXT);
    assert_eq!(env.session_key, Some(KEY_TEXT.to_string()));
    assert!(!env.skip_session_gen);

    env.skip_session_gen = true;
    let (config, generated) = Config::load_with(&mut env, true, fresh()).unwrap();
    assert!(!generated);
    assert_eq!(config.session_key.to_string(), KEY_TEXT);
}

#[test]
fn load_without_a_fresh_key_fails_where_one_is_to_be_generated() {
    let mut env = environment();
    env.session_key = None;
    assert_eq!(Config::load_with(&mut env, false, None).unwrap_err(), Error::Random);
    assert_eq!(env.session_key, None);
    assert!(!env.skip_session_gen);

    let mut env = environment();
    assert_eq!(Config::load_with(&mut env, true, None).unwrap_err(), Error::Random);
    assert_eq!(env.session_key, Some(KEY_TEXT.to_string()));

    let (config, generated) = Config::load_with(&mut env, false, None).unwrap();
    assert!(!generated);
    assert_eq!(config.session_key.to_string(), KEY_TEXT);
}

#[test]
fn load_with_reports_a_missing_directory_first() {
    let mut env = environment();
    env.home = None;
    env.session_key = None;
    assert_eq!(
        Config::load_with(&mut env, false, None).unwrap_err(),
        Error::Configuration(Setting::ConfigDir)
    );
    assert_eq!(
        Config::load_with(&mut env, false, fresh()).unwrap_err(),
        Error::Configuration(Setting::ConfigDir)
    );
    assert_eq!(env.session_key, None);
}
