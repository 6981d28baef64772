use nxcmdr::error::{Error, Segment, Setting};
use nxcmdr::models::{
    build_password, derive_master_key, derive_password_hash, Credentials, MasterKey, SessionKey,
    SymmetricKey,
};

const KEY_TEXT: &str =
    "AAECAwQFBgcICQoLDA0ODxAREhMUFRYXGBkaGxwdHh8gISIjJCUmJygpKissLS4vMDEyMzQ1Njc4OTo7PD0+Pw==";

fn credentials(email: &str, password: &str, iterations: u32) -> Credentials {
    Credentials { email: email.to_string(), password: password.to_string(), iterations }
}

fn hex(bytes: &[u8]) -> String {
    let mut out = String::new();
    for b in bytes {
        out.push_str(&format!("{:02x}", b));
    }
    out
}

#[test]
fn master_key_derivation_is_deterministic() {
    let input = credentials("a@b.com", "correct horse", 100000);
    let first = MasterKey::from_credentials(&input).unwrap();
    let second = MasterKey::from_credentials(&input).unwrap();
    assert_eq!(first.key.len(), 32);
    assert_eq!(first.key, second.key);
    assert_eq!(first.hash, second.hash);
}

#[test]
fn master_key_matches_reference() {
    let master = MasterKey::from_credentials(&credentials("a@b.com", "correct horse", 100000)).unwrap();
    assert_eq!(
        hex(&master.key),
        "c09d842a30728376777823ccc049812e1db3a5b647e7fdfa3a3a4267a7c194d5"
    );
    assert_eq!(master.hash, "eeO4sbKQDdWEK9n/kBSLxSQBFPk9DGW+5xF7g82SrII=");
}

#[test]
fn master_key_salt_is_the_email_in_lower_case() {
    let lower = MasterKey::from_credentials(&credentials("user@example.com", "pw", 1000)).unwrap();
    let mixed = MasterKey::from_credentials(&credentials("User@Example.COM", "pw", 1000)).unwrap();
    assert_eq!(
        hex(&lower.key),
        "560b9701c2306abd736afe234d963d304976697298685665c81ef08dce1c5213"
    );
    assert_eq!(lower.key, mixed.key);
    assert_eq!(lower.hash, "FN5LD67duJoZbDbQsUs0hQQyvdSBVLnwpEU6gnpnJ2o=");
    assert_eq!(mixed.hash, lower.hash);
}

#[test]
fn master_key_password_is_case_sensitive() {
    let a = MasterKey::from_credentials(&credentials("user@example.com", "pw", 1000)).unwrap();
    let b = MasterKey::from_credentials(&credentials("user@example.com", "PW", 1000)).unwrap();
    assert_ne!(a.key, b.key);
}

#[test]
fn master_key_with_zero_iterations_is_a_configuration_failure() {
    let r = MasterKey::from_credentials(&credentials("a@b.com", "correct horse", 0));
    assert_eq!(r.unwrap_err(), Error::Configuration(Setting::Iterations));
}

#[test]
fn build_password_gives_the_hash_of_the_master_key() {
    assert_eq!(
        build_password("user@example.com", "pw", 1000),
        Ok("FN5LD67duJoZbDbQsUs0hQQyvdSBVLnwpEU6gnpnJ2o=".to_string())
    );
    assert_eq!(
        build_password("user@example.com", "pw", 0),
        Err(Error::Configuration(Setting::Iterations))
    );
}

#[test]
fn symmetric_key_from_bytes_splits_in_halves() {
    let bytes: Vec<u8> = (0u8..64).collect();
    let key = SymmetricKey::from_bytes(&bytes).unwrap();
    assert_eq!(key.key, (0u8..32).collect::<Vec<u8>>());
    assert_eq!(key.mac, (32u8..64).collect::<Vec<u8>>());
}

#[test]
fn symmetric_key_from_bytes_uses_the_first_64_only() {
    let bytes: Vec<u8> = (0u8..100).collect();
    let key = SymmetricKey::from_bytes(&bytes).unwrap();
    assert_eq!(key.key, (0u8..32).collect::<Vec<u8>>());
    assert_eq!(key.mac, (32u8..64).collect::<Vec<u8>>());
}

#[test]
fn symmetric_key_from_too_few_bytes_is_a_key_failure() {
    assert_eq!(SymmetricKey::from_bytes(&vec![0u8; 63]).unwrap_err(), Error::KeyDerivation);
    assert_eq!(SymmetricKey::from_bytes(&vec![]).unwrap_err(), Error::KeyDerivation);
}

#[test]
fn symmetric_key_to_string_is_base64_of_both_halves() {
    let key = SymmetricKey { key: (0u8..32).collect(), mac: (32u8..64).collect() };
    assert_eq!(key.to_string(), KEY_TEXT);
}

#[test]
fn symmetric_key_from_base64_reads_what_to_string_writes() {
    let key = SymmetricKey::from_base64(KEY_TEXT).unwrap();
    assert_eq!(key.key, (0u8..32).collect::<Vec<u8>>());
    assert_eq!(key.mac, (32u8..64).collect::<Vec<u8>>());
    assert_eq!(key.to_string(), KEY_TEXT);
}

#[test]
fn symmetric_key_from_malformed_base64_is_an_encoding_failure() {
    assert_eq!(
        SymmetricKey::from_base64("not base64!").unwrap_err(),
        Error::Encoding(Segment::Key)
    );
}

#[test]
fn symmetric_key_from_short_base64_is_a_key_failure() {
    assert_eq!(SymmetricKey::from_base64("aGVsbG8=").unwrap_err(), Error::KeyDerivation);
    assert_eq!(SymmetricKey::from_base64("").unwrap_err(), Error::KeyDerivation);
}

#[test]
fn session_key_from_optional_reads_a_given_key() {
    let key = SessionKey::from_optional(Some(KEY_TEXT.to_string())).unwrap();
    assert_eq!(key.to_string(), KEY_TEXT);
    assert_eq!(
        SessionKey::from_optional(Some("???".to_string())).unwrap_err(),
        Error::Encoding(Segment::Key)
    );
    assert_eq!(
        SessionKey::from_optional(Some("aGVsbG8=".to_string())).unwrap_err(),
        Error::KeyDerivation
    );
}

#[test]
fn session_key_from_optional_generates_a_fresh_key() {
    let a = SessionKey::from_optional(None).unwrap().to_string();
    let b = SessionKey::from_optional(None).unwrap().to_string();
    assert_ne!(a, b);
    let pair = SymmetricKey::from_base64(&a).unwrap();
    assert_eq!(pair.key.len(), 32);
    assert_eq!(pair.mac.len(), 32);
    assert_ne!(pair.key, pair.mac);
    assert_eq!(pair.to_string(), a);
}

#[test]
fn session_key_uses_only_the_first_64_bytes_of_its_text() {
    let long = SymmetricKey { key: (0u8..32).collect(), mac: (32u8..72).collect() }.to_string();
    assert_eq!(SessionKey::from_base64(&long).unwrap().to_string(), KEY_TEXT);
}

#[test]
fn session_key_copy_is_the_same_key() {
    let key = SessionKey::from_base64(KEY_TEXT).unwrap();
    assert_eq!(key.clone().to_string(), KEY_TEXT);
}

#[test]
fn session_key_encrypts_what_the_same_key_pair_decrypts() {
    let key = SessionKey::from_base64(KEY_TEXT).unwrap();
    let pair = SymmetricKey::from_base64(KEY_TEXT).unwrap();
    let cs = key.encrypt(&b"cache contents".to_vec()).unwrap();
    assert_eq!(cs.enc_type, 2);
    assert_eq!(nxcmdr::crypt::decrypt_cipher_string(&pair, &cs), Ok(b"cache contents".to_vec()));
}

#[test]
fn symmetric_key_from_master_key_expands_it() {
    let master = MasterKey { key: (0u8..32).collect(), hash: String::new() };
    let key = SymmetricKey::from_master_key(&master).unwrap();
    assert_eq!(
        hex(&key.key),
        "9c5639fac602366b486253191cb7900d7d8e3a1514676b118d5803a11dd97213"
    );
    assert_eq!(
        hex(&key.mac),
        "cce388b4ac0f05edee78d40dcbe78a7715640de75ed9ba06942fb42398d6b1f1"
    );
    let short = MasterKey { key: vec![0u8; 31], hash: String::new() };
    assert_eq!(SymmetricKey::from_master_key(&short).unwrap_err(), Error::KeyDerivation);
}

#[test]
fn derive_master_key_matches_reference() {
    let key = derive_master_key("pw", "user@example.com", 1000).unwrap();
    assert_eq!(hex(&key), "560b9701c2306abd736afe234d963d304976697298685665c81ef08dce1c5213");
    assert_eq!(derive_master_key("pw", "USER@example.com", 1000).unwrap(), key);
    assert_eq!(
        derive_master_key("pw", "user@example.com", 0).unwrap_err(),
        Error::Configuration(Setting::Iterations)
    );
}

#[test]
fn derive_master_key_with_one_iteration_differs_from_two() {
    let one = derive_master_key("pw", "user@example.com", 1).unwrap();
    let two = derive_master_key("pw", "user@example.com", 2).unwrap();
    assert_ne!(one, two);
}

#[test]
fn derive_password_hash_matches_reference() {
    let key = derive_master_key("pw", "user@example.com", 1000).unwrap();
    assert_eq!(derive_password_hash(&key, "pw"), "FN5LD67duJoZbDbQsUs0hQQyvdSBVLnwpEU6gnpnJ2o=");
    assert_ne!(derive_password_hash(&key, "px"), "FN5LD67duJoZbDbQsUs0hQQyvdSBVLnwpEU6gnpnJ2o=");
}

#[test]
fn session_key_from_seed_splits_in_halves() {
    let seed: Vec<u8> = (0u8..64).collect();
    assert_eq!(SessionKey::from_seed(&seed).unwrap().to_string(), KEY_TEXT);
    let long: Vec<u8> = (0u8..80).collect();
    assert_eq!(SessionKey::from_seed(&long).unwrap().to_string(), KEY_TEXT);
    assert_eq!(SessionKey::from_seed(&vec![0u8; 63]).unwrap_err(), Error::KeyDerivation);
    assert_eq!(SessionKey::from_seed(&Vec::new()).unwrap_err(), Error::KeyDerivation);
}

#[test]
fn session_key_generate_draws_a_new_key_each_time() {
    let a = SessionKey::generate().unwrap().to_string();
    let b = SessionKey::generate().unwrap().to_string();
    assert_ne!(a, b);
    assert_eq!(a.len(), 88);
}

#[test]
fn session_key_encrypts_with_a_given_iv() {
    let key = SessionKey::from_base64(KEY_TEXT).unwrap();
    let iv: Vec<u8> = (100u8..116).collect();
    let cs = key.encrypt_with_iv(iv.clone(), &b"hello vault".to_vec()).unwrap();
    assert_eq!(cs.iv, iv);
    assert_eq!(hex(&cs.data), "3f0b8000da98a99288fde8e56b4a24a8");
    assert_eq!(
        key.encrypt_with_iv(vec![0u8; 8], &b"hello vault".to_vec()).unwrap_err(),
        Error::Format(Segment::Iv)
    );
}
