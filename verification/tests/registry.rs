use indexer_core::asset::{IndexAsset, IndexAssetType};
use indexer_core::error::ApiError;
use indexer_core::registry::AssetRegistry;

#[test]
fn asset_type_names_round_trip() {
    for asset_type in [IndexAssetType::Wasm, IndexAssetType::Manifest, IndexAssetType::Schema] {
        assert_eq!(IndexAssetType::from_name(asset_type.as_str()), Some(asset_type));
    }
    assert_eq!(IndexAssetType::Wasm.as_str(), "wasm");
    assert_eq!(IndexAssetType::Manifest.as_str(), "manifest");
    assert_eq!(IndexAssetType::Schema.as_str(), "schema");
    assert_eq!(IndexAssetType::from_name("bogus"), None);
    assert_eq!(IndexAssetType::from_name("Wasm"), None);
}

#[test]
fn versions_count_up_within_one_lineage() {
    let mut registry = AssetRegistry::new();
    let a = registry.register("demo", "idx1", IndexAssetType::Wasm, vec![1], 10).unwrap();
    let b = registry.register("demo", "idx1", IndexAssetType::Wasm, vec![2], 11).unwrap();
    let c = registry.register("demo", "idx1", IndexAssetType::Schema, vec![3], 12).unwrap();
    let d = registry.register("demo", "idx2", IndexAssetType::Wasm, vec![4], 13).unwrap();
    let e = registry.register("demo", "idx1", IndexAssetType::Wasm, vec![5], 14).unwrap();
    assert_eq!((a.version, b.version, c.version, d.version, e.version), (1, 2, 1, 1, 3));
    assert_eq!((a.id, b.id, c.id, d.id, e.id), (1, 2, 3, 4, 5));
    assert_eq!(
        e,
        IndexAsset {
            id: 5,
            namespace: "demo".to_string(),
            identifier: "idx1".to_string(),
            asset_type: IndexAssetType::Wasm,
            bytes: vec![5],
            version: 3,
            created_at: 14,
        }
    );
    assert_eq!(registry.latest_version("demo", "idx1", IndexAssetType::Wasm), 3);
    assert_eq!(registry.latest_version("demo", "idx1", IndexAssetType::Manifest), 0);
    assert_eq!(registry.len(), 5);
}

#[test]
fn same_bytes_still_make_a_new_version() {
    let mut registry = AssetRegistry::new();
    registry.register("demo", "idx1", IndexAssetType::Wasm, vec![1], 10).unwrap();
    let again = registry.register("demo", "idx1", IndexAssetType::Wasm, vec![1], 10).unwrap();
    assert_eq!(again.version, 2);
    assert_eq!(registry.assets()[0].version, 1);
    assert_eq!(registry.assets()[0].bytes, vec![1]);
}

#[test]
fn remove_deletes_one_index_and_keeps_the_others() {
    let mut registry = AssetRegistry::new();
    registry.register("demo", "idx1", IndexAssetType::Wasm, vec![1], 10).unwrap();
    let kept = registry.register("demo", "idx2", IndexAssetType::Wasm, vec![2], 10).unwrap();
    registry.register("demo", "idx1", IndexAssetType::Schema, vec![3], 10).unwrap();
    let other = registry.register("other", "idx1", IndexAssetType::Wasm, vec![4], 10).unwrap();
    assert_eq!(registry.remove("demo", "idx1"), Ok(()));
    assert_eq!(registry.assets(), vec![kept, other]);
    assert!(!registry.has_index("demo", "idx1"));
    assert!(registry.has_index("demo", "idx2"));
    // A new upload under the same key begins again at version 1.
    let fresh = registry.register("demo", "idx1", IndexAssetType::Wasm, vec![5], 11).unwrap();
    assert_eq!(fresh.version, 1);
    assert_eq!(fresh.id, 5);
}

#[test]
fn remove_of_unknown_index_is_not_found() {
    let mut registry = AssetRegistry::new();
    registry.register("demo", "idx1", IndexAssetType::Wasm, vec![1], 10).unwrap();
    assert_eq!(registry.remove("demo", "nope"), Err(ApiError::NotFound("demo/nope".to_string())));
    assert_eq!(registry.len(), 1);
}

#[test]
fn full_store_refuses_the_write() {
    let mut registry = AssetRegistry::with_capacity(1);
    registry.register("demo", "idx1", IndexAssetType::Wasm, vec![1], 10).unwrap();
    assert_eq!(
        registry.register("demo", "idx1", IndexAssetType::Wasm, vec![2], 10),
        Err(ApiError::Persistence)
    );
    assert_eq!(registry.len(), 1);
}

#[test]
fn unreachable_store_refuses_everything() {
    let mut registry = AssetRegistry::new();
    registry.register("demo", "idx1", IndexAssetType::Wasm, vec![1], 10).unwrap();
    registry.set_connected(false);
    assert!(!registry.is_connected());
    assert_eq!(
        registry.register("demo", "idx1", IndexAssetType::Wasm, vec![2], 10),
        Err(ApiError::Persistence)
    );
    assert_eq!(registry.remove("demo", "idx1"), Err(ApiError::Persistence));
    assert_eq!(registry.start_transaction(), Err(ApiError::Persistence));
    registry.set_connected(true);
    assert_eq!(registry.start_transaction(), Ok(()));
}

#[test]
fn rollback_brings_the_rows_back() {
    let mut registry = AssetRegistry::new();
    let first = registry.register("demo", "idx1", IndexAssetType::Wasm, vec![1], 10).unwrap();
    assert_eq!(registry.start_transaction(), Ok(()));
    assert!(registry.in_transaction());
    registry.register("demo", "idx1", IndexAssetType::Wasm, vec![2], 10).unwrap();
    registry.remove("demo", "idx1").unwrap();
    assert_eq!(registry.len(), 0);
    assert_eq!(registry.revert_transaction(), Ok(()));
    assert_eq!(registry.assets(), vec![first]);
    assert!(!registry.in_transaction());
}

#[test]
fn commit_keeps_what_was_written() {
    let mut registry = AssetRegistry::new();
    assert_eq!(registry.start_transaction(), Ok(()));
    let row = registry.register("demo", "idx1", IndexAssetType::Wasm, vec![2], 10).unwrap();
    assert_eq!(registry.commit_transaction(), Ok(()));
    assert_eq!(registry.assets(), vec![row]);
}

#[test]
fn transactions_do_not_nest_and_must_be_open_to_end() {
    let mut registry = AssetRegistry::new();
    assert_eq!(registry.commit_transaction(), Err(ApiError::Persistence));
    assert_eq!(registry.revert_transaction(), Err(ApiError::Persistence));
    assert_eq!(registry.start_transaction(), Ok(()));
    assert_eq!(registry.start_transaction(), Err(ApiError::Persistence));
    assert_eq!(registry.commit_transaction(), Ok(()));
}

#[test]
fn losing_the_store_rolls_the_open_transaction_back() {
    let mut registry = AssetRegistry::new();
    let first = registry.register("demo", "idx1", IndexAssetType::Wasm, vec![1], 10).unwrap();
    registry.start_transaction().unwrap();
    registry.register("demo", "idx1", IndexAssetType::Wasm, vec![2], 10).unwrap();
    registry.set_connected(false);
    assert!(!registry.in_transaction());
    assert_eq!(registry.assets(), vec![first]);
}
