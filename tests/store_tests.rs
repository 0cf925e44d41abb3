use std::collections::HashMap;
use es_client::crypto::{CryptoManager, EncryptedData};
use es_client::store::ConnectionManager;
use es_client::types::EsConnection;

fn profile(id: &str, name: &str, password: Option<&str>) -> EsConnection {
    let mut headers = HashMap::new();
    headers.insert("X-Team".to_string(), "search".to_string());
    EsConnection {
        id: id.to_string(),
        name: name.to_string(),
        url: "http://localhost:9200".to_string(),
        username: Some("elastic".to_string()),
        password: password.map(|p| p.to_string()),
        headers,
    }
}

fn manager() -> ConnectionManager {
    ConnectionManager::new(CryptoManager::from_key_bytes(&[5u8; 32]).unwrap())
}

#[test]
fn add_assigns_id_and_replaces_same_id() {
    let mut m = manager();
    let id = m.add_connection(profile("", "first", None));
    assert_eq!(id.len(), 36);
    let same = m.add_connection(profile("fixed", "second", None));
    assert_eq!(same, "fixed");
    m.add_connection(profile("fixed", "second renamed", None));
    let all = m.list_connections();
    assert_eq!(all.len(), 2);
    assert_eq!(m.get_connection("fixed").unwrap().name, "second renamed");
    assert_eq!(m.get_connection(&id).unwrap().name, "first");
    assert!(m.get_connection("nope").is_none());
}

#[test]
fn remove_reports_whether_present() {
    let mut m = manager();
    m.add_connection(profile("a", "A", None));
    assert!(m.remove_connection("a"));
    assert!(!m.remove_connection("a"));
    assert!(m.list_connections().is_empty());
}

#[test]
fn persisted_records_seal_non_empty_passwords_only() {
    let mut m = manager();
    m.add_connection(profile("a", "A", Some("s3cret")));
    m.add_connection(profile("b", "B", Some("")));
    m.add_connection(profile("c", "C", None));
    let recs = m.persisted_records().unwrap();
    assert_eq!(recs.len(), 3);
    let sealed = recs[0].encrypted_password.as_ref().unwrap();
    assert_ne!(sealed.ciphertext, "s3cret");
    assert!(recs[1].encrypted_password.is_none());
    assert!(recs[2].encrypted_password.is_none());
    assert_eq!(recs[0].headers.get("X-Team").map(|s| s.as_str()), Some("search"));
}

#[test]
fn load_skips_only_the_corrupted_record() {
    let mut m = manager();
    m.add_connection(profile("1", "one", Some("pw-one")));
    m.add_connection(profile("2", "two", Some("pw-two")));
    m.add_connection(profile("3", "three", Some("pw-three")));
    let mut recs = m.persisted_records().unwrap();
    let good = recs[1].encrypted_password.clone().unwrap();
    recs[1].encrypted_password = Some(EncryptedData { ciphertext: "AAAAAAAAAAAAAAAAAAAAAAAA".to_string(), nonce: good.nonce });
    let mut fresh = manager();
    let skipped = fresh.load_connections(recs);
    assert_eq!(skipped, vec!["two".to_string()]);
    let loaded = fresh.list_connections();
    assert_eq!(loaded.len(), 2);
    assert_eq!(loaded[0].id, "1");
    assert_eq!(loaded[0].password.as_deref(), Some("pw-one"));
    assert_eq!(loaded[1].id, "3");
    assert_eq!(loaded[1].password.as_deref(), Some("pw-three"));
}

#[test]
fn load_under_another_key_skips_sealed_records() {
    let mut m = manager();
    m.add_connection(profile("1", "one", Some("pw-one")));
    m.add_connection(profile("2", "two", None));
    let recs = m.persisted_records().unwrap();
    let mut other = ConnectionManager::new(CryptoManager::from_key_bytes(&[6u8; 32]).unwrap());
    let skipped = other.load_connections(recs);
    assert_eq!(skipped, vec!["one".to_string()]);
    assert_eq!(other.list_connections().len(), 1);
    assert_eq!(other.get_connection("2").unwrap().password, None);
}

#[test]
fn generated_ids_differ_from_stored_ones() {
    let mut m = manager();
    let mut ids = std::collections::HashSet::new();
    for k in 0..50 {
        let id = m.add_connection(profile("", &format!("n{}", k), None));
        assert!(id.len() >= 36);
        assert!(ids.insert(id));
    }
    assert_eq!(m.list_connections().len(), 50);
}
