use nxcmdr::env_vars::EnvVars;
use nxcmdr::error::{Error, Field, Segment};
use nxcmdr::lookup::{
    bytes_le, collect_fields, get_by_name, matching_entries, sort_by_name, vault_key, Entry,
};
use nxcmdr::models::{CipherString, MasterKey, StringWrapper, SymmetricKey};
use nxcmdr::records::{Cipher, CipherField, Profile, SyncResponse, TokenResponse};

fn master_bytes() -> Vec<u8> {
    (1u8..33).collect()
}

fn vault_bytes() -> Vec<u8> {
    (100u8..164).collect()
}

fn inner() -> SymmetricKey {
    SymmetricKey::from_bytes(&vault_bytes()).unwrap()
}

fn outer() -> SymmetricKey {
    SymmetricKey::from_master_key(&MasterKey { key: master_bytes(), hash: String::new() }).unwrap()
}

fn seal(key: &SymmetricKey, text: &str) -> CipherString {
    key.encrypt(&text.as_bytes().to_vec()).unwrap()
}

fn broken() -> CipherString {
    let mut cs = seal(&inner(), "broken");
    cs.mac[0] ^= 1;
    cs
}

fn field(name: &str, value: &str) -> CipherField {
    CipherField { name: seal(&inner(), name), field_type: 0, value: seal(&inner(), value) }
}

fn note(name: &str, fields: Vec<CipherField>) -> Cipher {
    Cipher {
        id: uuid::Uuid::nil(),
        name: seal(&inner(), name),
        cipher_type: 2,
        fields: Some(fields),
    }
}

fn token() -> TokenResponse {
    TokenResponse {
        access_token: Some("access".to_string()),
        expires_in: Some(3600),
        token_type: None,
        refresh_token: None,
        scope: None,
        private_key: None,
        key: None,
        reset_password: None,
        kdf: None,
        iterations: None,
        error: None,
        error_description: None,
        error_model: None,
        last_saved: None,
        master_key: Some("AQIDBAUGBwgJCgsMDQ4PEBESExQVFhcYGRobHB0eHyA=".to_string()),
    }
}

fn vault(ciphers: Vec<Cipher>) -> SyncResponse {
    SyncResponse {
        rev_date: Some(1),
        profile: Profile {
            email: "a@b.com".to_string(),
            key: outer().encrypt(&vault_bytes()).unwrap(),
        },
        ciphers,
        collections: Vec::new(),
        domains: serde_json::Value::Null,
        folders: Vec::new(),
    }
}

fn value(vars: &EnvVars, name: &str) -> Option<String> {
    vars.get(name).cloned()
}

#[test]
fn later_note_in_order_of_names_wins() {
    let data = vault(vec![
        note("MyApp environment A", vec![field("PORT", "1000"), field("ONLY_A", "a")]),
        note("MyApp environment B", vec![field("PORT", "2000"), field("ONLY_B", "b")]),
    ]);
    let vars = get_by_name("env", &token(), &data).unwrap();
    assert_eq!(value(&vars, "PORT"), Some("2000".to_string()));
    assert_eq!(value(&vars, "ONLY_A"), Some("a".to_string()));
    assert_eq!(value(&vars, "ONLY_B"), Some("b".to_string()));
    assert_eq!(vars.len(), 3);
}

#[test]
fn order_of_names_decides_not_order_in_the_vault() {
    let data = vault(vec![
        note("MyApp environment B", vec![field("PORT", "2000")]),
        note("MyApp environment A", vec![field("PORT", "1000")]),
    ]);
    let vars = get_by_name("env", &token(), &data).unwrap();
    assert_eq!(value(&vars, "PORT"), Some("2000".to_string()));
    assert_eq!(vars.len(), 1);
}

#[test]
fn names_are_ordered_byte_by_byte() {
    let data = vault(vec![
        note("env b", vec![field("PORT", "lower")]),
        note("env B", vec![field("PORT", "upper")]),
        note("env", vec![field("PORT", "prefix")]),
    ]);
    let vars = get_by_name("env", &token(), &data).unwrap();
    assert_eq!(value(&vars, "PORT"), Some("lower".to_string()));
}

#[test]
fn notes_of_the_same_name_keep_the_order_of_the_vault() {
    let data = vault(vec![
        note("env", vec![field("PORT", "first")]),
        note("env", vec![field("PORT", "second")]),
        note("env", vec![field("PORT", "third")]),
    ]);
    let vars = get_by_name("env", &token(), &data).unwrap();
    assert_eq!(value(&vars, "PORT"), Some("third".to_string()));
}

#[test]
fn later_field_of_the_same_note_wins() {
    let data = vault(vec![note("env", vec![field("PORT", "1"), field("PORT", "2")])]);
    let vars = get_by_name("env", &token(), &data).unwrap();
    assert_eq!(value(&vars, "PORT"), Some("2".to_string()));
    assert_eq!(vars.len(), 1);
}

#[test]
fn match_is_case_insensitive() {
    let data = vault(vec![
        note("Production ENVIRONMENT", vec![field("A", "1")]),
        note("staging Environment", vec![field("B", "2")]),
        note("something else", vec![field("C", "3")]),
    ]);
    let vars = get_by_name("eNv", &token(), &data).unwrap();
    assert_eq!(value(&vars, "A"), Some("1".to_string()));
    assert_eq!(value(&vars, "B"), Some("2".to_string()));
    assert_eq!(value(&vars, "C"), None);
    assert_eq!(vars.len(), 2);
}

#[test]
fn empty_query_matches_every_note() {
    let data = vault(vec![
        note("one", vec![field("A", "1")]),
        note("two", vec![field("B", "2")]),
    ]);
    let vars = get_by_name("", &token(), &data).unwrap();
    assert_eq!(vars.len(), 2);
}

#[test]
fn query_without_match_gives_nothing() {
    let data = vault(vec![note("one", vec![field("A", "1")])]);
    let vars = get_by_name("zzz", &token(), &data).unwrap();
    assert!(vars.is_empty());
}

#[test]
fn empty_vault_gives_nothing() {
    let vars = get_by_name("env", &token(), &vault(Vec::new())).unwrap();
    assert!(vars.is_empty());
}

#[test]
fn other_kinds_of_entries_are_left_out() {
    let mut login = note("env login", vec![field("A", "1")]);
    login.cipher_type = 1;
    let mut card = note("env card", vec![field("B", "2")]);
    card.cipher_type = 3;
    let data = vault(vec![login, card, note("env note", vec![field("C", "3")])]);
    let vars = get_by_name("env", &token(), &data).unwrap();
    assert_eq!(vars.len(), 1);
    assert_eq!(value(&vars, "C"), Some("3".to_string()));
}

#[test]
fn note_without_fields_contributes_nothing() {
    let mut bare = note("env bare", Vec::new());
    bare.fields = None;
    let data = vault(vec![bare, note("env empty", Vec::new())]);
    let vars = get_by_name("env", &token(), &data).unwrap();
    assert!(vars.is_empty());
}

#[test]
fn note_whose_name_does_not_decrypt_is_left_out() {
    let mut bad = note("env", vec![field("A", "1")]);
    bad.name = broken();
    let data = vault(vec![bad, note("env good", vec![field("B", "2")])]);
    let vars = get_by_name("env", &token(), &data).unwrap();
    assert_eq!(vars.len(), 1);
    assert_eq!(value(&vars, "B"), Some("2".to_string()));
    let vars = get_by_name("", &token(), &data).unwrap();
    assert_eq!(vars.len(), 1);
}

#[test]
fn field_that_does_not_decrypt_is_left_out_and_the_others_stay() {
    let mut bad_value = field("B", "2");
    bad_value.value = broken();
    let mut bad_name = field("C", "3");
    bad_name.name = broken();
    let data = vault(vec![
        note("env 1", vec![field("A", "1"), bad_value]),
        note("env 2", vec![bad_name, field("D", "4")]),
        note("env 3", vec![field("E", "5")]),
    ]);
    let vars = get_by_name("env", &token(), &data).unwrap();
    assert_eq!(vars.len(), 3);
    assert_eq!(value(&vars, "A"), Some("1".to_string()));
    assert_eq!(value(&vars, "D"), Some("4".to_string()));
    assert_eq!(value(&vars, "E"), Some("5".to_string()));
    assert_eq!(value(&vars, "B"), None);
    assert_eq!(value(&vars, "C"), None);
    assert_eq!(value(&vars, ""), None);
}

#[test]
fn note_with_one_unreadable_field_gives_its_readable_field() {
    let mut unreadable = field("F1", "x");
    unreadable.name = broken();
    let data = vault(vec![note("env", vec![unreadable, field("K", "v")])]);
    let vars = get_by_name("env", &token(), &data).unwrap();
    assert_eq!(vars.len(), 1);
    assert_eq!(value(&vars, "K"), Some("v".to_string()));

    let mut unreadable = field("F1", "x");
    unreadable.value = broken();
    let data = vault(vec![note("env", vec![field("K", "v"), unreadable])]);
    let vars = get_by_name("env", &token(), &data).unwrap();
    assert_eq!(vars.len(), 1);
    assert_eq!(value(&vars, "K"), Some("v".to_string()));
    assert_eq!(value(&vars, "F1"), None);
}

#[test]
fn unreadable_field_does_not_hide_an_earlier_value_of_its_name() {
    let mut unreadable = field("PORT", "9");
    unreadable.value = broken();
    let data = vault(vec![
        note("env a", vec![field("PORT", "1")]),
        note("env b", vec![unreadable]),
    ]);
    let vars = get_by_name("env", &token(), &data).unwrap();
    assert_eq!(value(&vars, "PORT"), Some("1".to_string()));
}

#[test]
fn field_that_is_not_text_is_left_out() {
    let mut binary = field("B", "2");
    binary.value = inner().encrypt(&vec![0xff, 0xfe]).unwrap();
    let data = vault(vec![note("env", vec![field("A", "1"), binary])]);
    let vars = get_by_name("env", &token(), &data).unwrap();
    assert_eq!(vars.len(), 1);
    assert_eq!(value(&vars, "A"), Some("1".to_string()));
}

#[test]
fn note_whose_name_is_not_text_is_left_out() {
    let mut bad = note("env", vec![field("A", "1")]);
    bad.name = inner().encrypt(&vec![0xff, 0xff]).unwrap();
    let vars = get_by_name("", &token(), &vault(vec![bad])).unwrap();
    assert!(vars.is_empty());
}

#[test]
fn lookup_without_master_key_fails() {
    let mut t = token();
    t.master_key = None;
    assert_eq!(
        get_by_name("env", &t, &vault(Vec::new())).unwrap_err(),
        Error::Record(Field::MasterKey)
    );
}

#[test]
fn lookup_with_malformed_master_key_fails() {
    let mut t = token();
    t.master_key = Some("not base64!".to_string());
    assert_eq!(
        get_by_name("env", &t, &vault(Vec::new())).unwrap_err(),
        Error::Encoding(Segment::Key)
    );
}

#[test]
fn lookup_with_master_key_of_wrong_length_fails() {
    let mut t = token();
    t.master_key = Some("AQIDBA==".to_string());
    assert_eq!(get_by_name("env", &t, &vault(Vec::new())).unwrap_err(), Error::KeyDerivation);
}

#[test]
fn lookup_with_wrong_master_key_fails_authentication() {
    let mut t = token();
    t.master_key = Some("AAECAwQFBgcICQoLDA0ODxAREhMUFRYXGBkaGxwdHh8=".to_string());
    assert_eq!(get_by_name("env", &t, &vault(Vec::new())).unwrap_err(), Error::Authentication);
}

#[test]
fn lookup_with_short_vault_key_fails() {
    let mut data = vault(Vec::new());
    data.profile.key = outer().encrypt(&vec![1u8; 63]).unwrap();
    assert_eq!(get_by_name("env", &token(), &data).unwrap_err(), Error::KeyDerivation);
}

#[test]
fn vault_key_is_the_unwrapped_profile_key() {
    let key = vault_key(&token(), &vault(Vec::new())).unwrap();
    assert_eq!(key.key, (100u8..132).collect::<Vec<u8>>());
    assert_eq!(key.mac, (132u8..164).collect::<Vec<u8>>());
}

#[test]
fn lookup_reads_cipher_strings_that_were_parsed_from_text() {
    let sealed = seal(&inner(), "env from text").to_string();
    let mut parsed = note("ignored", vec![field("A", "1")]);
    parsed.name = CipherString::parse(&StringWrapper::from_str(&sealed)).unwrap();
    let vars = get_by_name("from text", &token(), &vault(vec![parsed])).unwrap();
    assert_eq!(value(&vars, "A"), Some("1".to_string()));
}

#[test]
fn matching_entries_keep_the_order_of_the_vault() {
    let ciphers = vec![
        note("b env", vec![field("X", "1")]),
        note("other", vec![field("Y", "2")]),
        note("a env", vec![field("Z", "3")]),
    ];
    let found = matching_entries(&ciphers, &inner(), "env");
    let names: Vec<&str> = found.iter().map(|e| e.name.as_str()).collect();
    assert_eq!(names, vec!["b env", "a env"]);
    assert_eq!(found[0].fields, vec![("X".to_string(), "1".to_string())]);
}

#[test]
fn matching_entries_expect_the_query_in_lower_case() {
    let ciphers = vec![note("My ENV", vec![])];
    assert_eq!(matching_entries(&ciphers, &inner(), "env").len(), 1);
    assert_eq!(matching_entries(&ciphers, &inner(), "ENV").len(), 0);
}

fn entry(name: &str, tag: &str) -> Entry {
    Entry { name: name.to_string(), fields: vec![("TAG".to_string(), tag.to_string())] }
}

#[test]
fn sort_by_name_is_ascending_and_stable() {
    let sorted = sort_by_name(vec![
        entry("b", "1"),
        entry("a", "2"),
        entry("c", "3"),
        entry("a", "4"),
        entry("", "5"),
        entry("b", "6"),
        entry("ab", "7"),
    ]);
    let order: Vec<(&str, &str)> =
        sorted.iter().map(|e| (e.name.as_str(), e.fields[0].1.as_str())).collect();
    assert_eq!(
        order,
        vec![("", "5"), ("a", "2"), ("a", "4"), ("ab", "7"), ("b", "1"), ("b", "6"), ("c", "3")]
    );
}

#[test]
fn sort_by_name_agrees_with_the_standard_sort() {
    let names = ["zeta", "Alpha", "alpha", "é", "e", "", "alp", "Zeta", "世界", "alpha"];
    let entries: Vec<Entry> =
        names.iter().enumerate().map(|(i, n)| entry(n, &i.to_string())).collect();
    let mut expected: Vec<(String, String)> =
        names.iter().enumerate().map(|(i, n)| (n.to_string(), i.to_string())).collect();
    expected.sort_by_key(|pair| pair.0.clone());
    let sorted: Vec<(String, String)> =
        sort_by_name(entries).into_iter().map(|e| (e.name, e.fields[0].1.clone())).collect();
    assert_eq!(sorted, expected);
}

#[test]
fn sort_by_name_of_nothing_is_nothing() {
    assert!(sort_by_name(Vec::new()).is_empty());
}

#[test]
fn collect_fields_lets_later_entries_overwrite() {
    let entries = vec![
        Entry {
            name: "a".to_string(),
            fields: vec![
                ("X".to_string(), "1".to_string()),
                ("Y".to_string(), "2".to_string()),
            ],
        },
        Entry {
            name: "b".to_string(),
            fields: vec![
                ("Y".to_string(), "3".to_string()),
                ("Z".to_string(), "4".to_string()),
                ("Z".to_string(), "5".to_string()),
            ],
        },
    ];
    let vars = collect_fields(&entries);
    assert_eq!(vars.len(), 3);
    assert_eq!(value(&vars, "X"), Some("1".to_string()));
    assert_eq!(value(&vars, "Y"), Some("3".to_string()));
    assert_eq!(value(&vars, "Z"), Some("5".to_string()));
}

#[test]
fn bytes_le_is_the_order_of_strings() {
    assert!(bytes_le(b"", b""));
    assert!(bytes_le(b"", b"a"));
    assert!(!bytes_le(b"a", b""));
    assert!(bytes_le(b"a", b"a"));
    assert!(bytes_le(b"a", b"b"));
    assert!(!bytes_le(b"b", b"a"));
    assert!(bytes_le(b"a", b"ab"));
    assert!(!bytes_le(b"ab", b"a"));
    assert!(bytes_le(b"ab", b"b"));
    assert!(bytes_le(b"B", b"a"));
    assert!(bytes_le(&[0x7f], &[0x80]));
    let words = ["", "a", "A", "ab", "b", "é", "z", "世"];
    for x in words {
        for y in words {
            assert_eq!(bytes_le(x.as_bytes(), y.as_bytes()), x <= y);
        }
    }
}
