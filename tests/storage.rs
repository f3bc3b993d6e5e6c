use saya_core::storage::{create_db_key, MapStorage, StarknetPrefix, StorageKey, StorageValue};

#[test]
fn prefixes_have_their_texts() {
    assert_eq!(StarknetPrefix::InnerNode.to_bytes(), b"patricia_node");
    assert_eq!(StarknetPrefix::StorageLeaf.to_bytes(), b"starknet_storage_leaf");
    assert_eq!(StarknetPrefix::StateTreeLeaf.to_bytes(), b"contract_state");
    assert_eq!(StarknetPrefix::CompiledClassLeaf.to_bytes(), b"contract_class_leaf");
    assert_eq!(StarknetPrefix::InnerNode.to_storage_prefix(), b"patricia_node".to_vec());
}

#[test]
fn db_key_joins_with_colon() {
    let key = create_db_key(StarknetPrefix::InnerNode.to_storage_prefix(), &[1, 2]);
    assert_eq!(key.0, b"patricia_node:\x01\x02".to_vec());
    assert_eq!(create_db_key(vec![], &[]).0, vec![b':']);
}

#[test]
fn key_hex_is_lowercase_pairs() {
    assert_eq!(StorageKey(vec![0x0a, 0xff, 0x00, 0x7b]).to_hex(), "0aff007b");
    assert_eq!(StorageKey(vec![]).to_hex(), "");
}

#[test]
fn map_storage_set_get_delete() {
    let mut s = MapStorage::new();
    let k = || StorageKey(vec![1, 2, 3]);
    assert_eq!(s.get(&k()), None);
    assert_eq!(s.set(k(), StorageValue(vec![9])), None);
    assert_eq!(s.get(&k()), Some(&StorageValue(vec![9])));
    assert_eq!(s.set(k(), StorageValue(vec![8])), Some(StorageValue(vec![9])));
    assert_eq!(s.set(StorageKey(vec![4]), StorageValue(vec![4])), None);
    assert_eq!(s.get(&k()), Some(&StorageValue(vec![8])));
    assert_eq!(s.delete(&k()), Some(StorageValue(vec![8])));
    assert_eq!(s.get(&k()), None);
    assert_eq!(s.delete(&k()), None);
    assert_eq!(s.get(&StorageKey(vec![4])), Some(&StorageValue(vec![4])));
}
