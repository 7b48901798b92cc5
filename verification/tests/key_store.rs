use ipc_agent::keystore::{KeyInfo, KeyStoreError, MemoryKeyStore};

fn key(b: u8) -> KeyInfo {
    KeyInfo { private_key: vec![b; 32] }
}

#[test]
fn empty_store_has_nothing() {
    let s = MemoryKeyStore::new();
    assert_eq!(s.get("0xabc"), None);
    assert_eq!(s.list_all(), Vec::<String>::new());
}

#[test]
fn put_then_get() {
    let mut s = MemoryKeyStore::new();
    assert_eq!(s.put(Some("0xabc".to_string()), key(1)), Ok(()));
    assert_eq!(s.put(Some("0xdef".to_string()), key(2)), Ok(()));
    assert_eq!(s.get("0xabc"), Some(key(1)));
    assert_eq!(s.get("0xdef"), Some(key(2)));
    assert_eq!(s.get("0xABC"), None);
    assert_eq!(s.list_all(), vec!["0xabc".to_string(), "0xdef".to_string()]);
}

#[test]
fn put_replaces_the_key_of_an_address() {
    let mut s = MemoryKeyStore::new();
    s.put(Some("0xabc".to_string()), key(1)).unwrap();
    s.put(Some("0xdef".to_string()), key(2)).unwrap();
    s.put(Some("0xabc".to_string()), key(3)).unwrap();
    assert_eq!(s.get("0xabc"), Some(key(3)));
    assert_eq!(s.get("0xdef"), Some(key(2)));
    assert_eq!(s.list_all().len(), 2);
}

#[test]
fn key_without_address_is_refused() {
    let mut s = MemoryKeyStore::new();
    s.put(Some("0xabc".to_string()), key(1)).unwrap();
    assert_eq!(s.put(None, key(9)), Err(KeyStoreError::KeyConversion));
    assert_eq!(s.list_all(), vec!["0xabc".to_string()]);
    assert_eq!(s.get("0xabc"), Some(key(1)));
}
