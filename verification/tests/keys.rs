use config::{Config, File, FileFormat};
use exchange_gateway::keys::{load_keys, Key, KeyProblem, KeyTable, KeysError};

fn read(text: &str) -> Config {
    Config::builder().add_source(File::from_str(text, FileFormat::Toml)).build().unwrap()
}

fn failure(result: Result<KeyTable, KeysError>) -> KeysError {
    match result {
        Err(e) => e,
        Ok(_) => panic!("the keys must be refused"),
    }
}

fn section(name: &str, fields: &[(&str, &str)]) -> (String, Vec<(String, Option<String>)>) {
    (name.to_string(), fields.iter().map(|(k, v)| (k.to_string(), Some(v.to_string()))).collect())
}

#[test]
fn test_load_keys() {
    let text = "[acct1]\napiKey = \"k1\"\nsecret = \"s1\"\n\n[acct2]\napi_key = \"k2\"\nsecret = \"s2\"\n";
    let result = load_keys(read(text));
    assert!(result.is_ok(), "Failed to load keys: {:?}", result.err());

    let keys = result.unwrap();
    assert!(!keys.is_empty(), "No keys loaded");
}

#[test]
fn loads_every_section_as_a_credential() {
    let text = "[acct1]\napiKey = \"k1\"\nsecret = \"s1\"\n\n[\"sub account\"]\napi_key = \"k2\"\nsecret = \"s2\"\nnote = \"spare\"\n";
    let keys = load_keys(read(text)).unwrap();
    assert_eq!(keys.len(), 2);
    let first = keys.get("acct1").unwrap();
    assert_eq!((first.api_key.as_str(), first.secret.as_str()), ("k1", "s1"));
    let second = keys.get("sub account").unwrap();
    assert_eq!((second.api_key.as_str(), second.secret.as_str()), ("k2", "s2"));
    assert!(keys.get("acct3").is_none());
}

#[test]
fn loads_no_keys_from_empty_settings() {
    let keys = load_keys(read("")).unwrap();
    assert!(keys.is_empty());
    assert_eq!(keys.len(), 0);
}

#[test]
fn refuses_sections_that_are_no_credentials() {
    assert_eq!(
        failure(load_keys(read("[acct1]\nsecret = \"s1\"\n"))),
        KeysError::Credential { name: "acct1".to_string(), problem: KeyProblem::ApiKeyMissing }
    );
    assert_eq!(
        failure(load_keys(read("[acct1]\napiKey = \"k1\"\n"))),
        KeysError::Credential { name: "acct1".to_string(), problem: KeyProblem::SecretMissing }
    );
    assert_eq!(
        failure(load_keys(read("[acct1]\napiKey = \"k1\"\napi_key = \"k1\"\nsecret = \"s\"\n"))),
        KeysError::Credential { name: "acct1".to_string(), problem: KeyProblem::ApiKeyTwice }
    );
    let one_bad = "[good]\napiKey = \"k\"\nsecret = \"s\"\n[bad]\napiKey = \"k\"\n";
    assert_eq!(
        failure(load_keys(read(one_bad))),
        KeysError::Credential { name: "bad".to_string(), problem: KeyProblem::SecretMissing }
    );
}

#[test]
fn refuses_settings_that_are_no_sections() {
    assert_eq!(failure(load_keys(read("acct1 = \"k1\"\n"))), KeysError::Shape);
    assert_eq!(failure(load_keys(read("acct1 = [\"k1\"]\n"))), KeysError::Shape);
}

#[test]
fn loads_credentials_that_hold_more_than_key_and_secret() {
    let text = "[acct1]\napiKey = \"k1\"\nsecret = \"s1\"\ntags = [\"a\", \"b\"]\nlimit = 5\n\n[acct1.limits]\ndaily = 10\n";
    let keys = load_keys(read(text)).unwrap();
    assert!(!keys.is_empty());
    assert_eq!(keys.len(), 1);
    let key = keys.get("acct1").unwrap();
    assert_eq!((key.api_key.as_str(), key.secret.as_str()), ("k1", "s1"));
}

#[test]
fn reads_numbers_as_text() {
    let keys = load_keys(read("[acct1]\napiKey = 12\nsecret = true\n")).unwrap();
    let key = keys.get("acct1").unwrap();
    assert_eq!((key.api_key.as_str(), key.secret.as_str()), ("12", "true"));
}

#[test]
fn refuses_keys_and_secrets_that_are_no_text() {
    assert_eq!(
        failure(load_keys(read("[acct1]\napiKey = [\"k1\"]\nsecret = \"s\"\n"))),
        KeysError::Credential { name: "acct1".to_string(), problem: KeyProblem::ApiKeyNotText }
    );
    assert_eq!(
        failure(load_keys(read("[acct1]\napi_key = \"k1\"\n[acct1.secret]\nvalue = \"s\"\n"))),
        KeysError::Credential { name: "acct1".to_string(), problem: KeyProblem::SecretNotText }
    );
    let fields = vec![("apiKey".to_string(), None), ("secret".to_string(), Some("s".to_string()))];
    assert_eq!(Key::from_fields(&fields).err(), Some(KeyProblem::ApiKeyNotText));
    let fields = vec![("api_key".to_string(), Some("k".to_string())), ("secret".to_string(), None)];
    assert_eq!(Key::from_fields(&fields).err(), Some(KeyProblem::SecretNotText));
    let fields = vec![
        ("api_key".to_string(), Some("k".to_string())),
        ("secret".to_string(), Some("s".to_string())),
        ("tags".to_string(), None),
    ];
    assert!(Key::from_fields(&fields).is_ok());
}

#[test]
fn errors_say_what_a_section_lacks() {
    assert_eq!(KeysError::Shape.message(), "keys are not sections of values");
    let cases = [
        (KeyProblem::ApiKeyMissing, "missing field `apiKey` for key acct1"),
        (KeyProblem::ApiKeyTwice, "duplicate field `apiKey` for key acct1"),
        (KeyProblem::ApiKeyNotText, "invalid type for field `apiKey` for key acct1"),
        (KeyProblem::SecretMissing, "missing field `secret` for key acct1"),
        (KeyProblem::SecretNotText, "invalid type for field `secret` for key acct1"),
    ];
    for (problem, text) in cases {
        let error = KeysError::Credential { name: "acct1".to_string(), problem };
        assert_eq!(error.message(), text);
    }
    assert_eq!(KeyProblem::SecretMissing.describe(), "missing field `secret`");
}

#[test]
fn makes_a_table_from_sections_in_order() {
    let sections = vec![
        section("acct1", &[("apiKey", "k1"), ("secret", "s1")]),
        section("acct2", &[("secret", "s2"), ("api_key", "k2"), ("secret", "s2b")]),
        section("acct1", &[("apiKey", "k3"), ("secret", "s3")]),
    ];
    let keys = KeyTable::from_sections(sections).unwrap();
    assert_eq!(keys.len(), 2);
    assert_eq!(keys.get("acct1").unwrap().api_key, "k3");
    assert_eq!(keys.get("acct1").unwrap().secret, "s3");
    assert_eq!(keys.get("acct2").unwrap().api_key, "k2");
    assert_eq!(keys.get("acct2").unwrap().secret, "s2b");
    assert_eq!(keys.entry(0).name, "acct1");
    assert_eq!(keys.entry(1).name, "acct2");
}

#[test]
fn reports_the_first_section_that_is_no_credential() {
    let sections = vec![
        section("acct1", &[("apiKey", "k1"), ("secret", "s1")]),
        section("acct2", &[]),
        section("acct3", &[("apiKey", "k3")]),
    ];
    assert_eq!(
        failure(KeyTable::from_sections(sections)),
        KeysError::Credential { name: "acct2".to_string(), problem: KeyProblem::ApiKeyMissing }
    );
}

#[test]
fn makes_a_credential_from_fields() {
    let fields = section("", &[("apiKey", "k"), ("secret", "s"), ("apiKey", "k2")]).1;
    let key = Key::from_fields(&fields).unwrap();
    assert_eq!((key.api_key.as_str(), key.secret.as_str()), ("k2", "s"));
    assert_eq!(Key::from_fields(&Vec::new()).err(), Some(KeyProblem::ApiKeyMissing));
    let both = section("", &[("api_key", "a"), ("apiKey", "b"), ("secret", "s")]).1;
    assert_eq!(Key::from_fields(&both).err(), Some(KeyProblem::ApiKeyTwice));
    let upper = section("", &[("APIKEY", "a"), ("secret", "s")]).1;
    assert_eq!(Key::from_fields(&upper).err(), Some(KeyProblem::ApiKeyMissing));
}

#[test]
fn table_maps_each_name_once() {
    let mut keys = KeyTable::new();
    assert!(keys.is_empty());
    keys.insert("a".to_string(), Key { api_key: "k1".to_string(), secret: "s1".to_string() });
    keys.insert("b".to_string(), Key { api_key: "k2".to_string(), secret: "s2".to_string() });
    keys.insert("a".to_string(), Key { api_key: "k3".to_string(), secret: "s3".to_string() });
    assert_eq!(keys.len(), 2);
    assert!(!keys.is_empty());
    assert_eq!(keys.get("a").unwrap().api_key, "k3");
    assert_eq!(keys.get("b").unwrap().secret, "s2");
    assert!(keys.get("c").is_none());
    assert!(keys.get("A").is_none());
    assert_eq!(keys.entry(0).name, "a");
    assert_eq!(keys.entry(0).key.secret, "s3");
    assert_eq!(keys.entry(1).name, "b");
    let copy = keys.get("a").unwrap().clone();
    assert_eq!((copy.api_key.as_str(), copy.secret.as_str()), ("k3", "s3"));
}
