use indexer_core::asset::{IndexAsset, IndexAssetType};
use indexer_core::control::{AssetReloadRequest, ControlChannel, ServiceRequest};
use indexer_core::error::{ApiError, CompileError};
use indexer_core::manager::SchemaManager;
use indexer_core::query::compile;
use indexer_core::registry::AssetRegistry;
use indexer_core::schema::Schema;
use indexer_core::upload::{register_index_assets, UploadPart};

fn part(name: &str, data: &[u8]) -> UploadPart {
    UploadPart { name: name.to_string(), data: data.to_vec() }
}

fn reload(namespace: &str, identifier: &str) -> ServiceRequest {
    ServiceRequest::AssetReload(AssetReloadRequest {
        namespace: namespace.to_string(),
        identifier: identifier.to_string(),
    })
}

const PING: &str = "type Ping { id: ID! value: Int! }";
const PING_EXTRA: &str = "type Ping { id: ID! value: Int! extra: String! }";

#[test]
fn first_upload_registers_manifest_and_schema() {
    let mut registry = AssetRegistry::new();
    let mut manager = SchemaManager::new();
    let mut channel = Some(ControlChannel::new(4));
    let parts = vec![part("manifest", b"namespace: demo"), part("schema", PING.as_bytes())];
    let assets = register_index_assets(
        &mut registry,
        &mut manager,
        &mut channel,
        "demo",
        "idx1",
        Some(parts),
        1000,
    )
    .unwrap();
    let expected = vec![
        IndexAsset {
            id: 1,
            namespace: "demo".to_string(),
            identifier: "idx1".to_string(),
            asset_type: IndexAssetType::Manifest,
            bytes: b"namespace: demo".to_vec(),
            version: 1,
            created_at: 1000,
        },
        IndexAsset {
            id: 2,
            namespace: "demo".to_string(),
            identifier: "idx1".to_string(),
            asset_type: IndexAssetType::Schema,
            bytes: PING.as_bytes().to_vec(),
            version: 1,
            created_at: 1000,
        },
    ];
    assert_eq!(assets, expected);
    assert_eq!(registry.assets(), expected);
    assert!(!registry.in_transaction());
    let schema = manager.load_schema("demo").unwrap();
    assert_eq!(schema, Schema::compile("demo", PING).unwrap());
    assert_eq!(schema.types.len(), 1);
    assert_eq!(schema.types[0].name, "Ping");
}

#[test]
fn second_upload_of_schema_gets_version_two_and_swaps_schema() {
    let mut registry = AssetRegistry::new();
    let mut manager = SchemaManager::new();
    let mut channel = Some(ControlChannel::new(4));
    let first = vec![part("manifest", b"m"), part("schema", PING.as_bytes())];
    register_index_assets(&mut registry, &mut manager, &mut channel, "demo", "idx1", Some(first), 1)
        .unwrap();
    let old_schema = manager.load_schema("demo").unwrap();
    assert_eq!(
        compile(&old_schema, "{ Ping { id value extra } }"),
        Err(CompileError::UnknownField("Ping".to_string(), "extra".to_string()))
    );
    let second = vec![part("schema", PING_EXTRA.as_bytes())];
    let assets = register_index_assets(
        &mut registry,
        &mut manager,
        &mut channel,
        "demo",
        "idx1",
        Some(second),
        2,
    )
    .unwrap();
    assert_eq!(assets.len(), 1);
    assert_eq!(assets[0].asset_type, IndexAssetType::Schema);
    assert_eq!(assets[0].version, 2);
    assert_eq!(assets[0].id, 3);
    assert_eq!(registry.latest_version("demo", "idx1", IndexAssetType::Schema), 2);
    assert_eq!(registry.latest_version("demo", "idx1", IndexAssetType::Manifest), 1);
    let new_schema = manager.load_schema("demo").unwrap();
    assert!(compile(&new_schema, "{ Ping { id value extra } }").is_ok());
    // The copy that a reader took before the upload is the old schema, whole.
    assert_eq!(old_schema, Schema::compile("demo", PING).unwrap());
    assert!(compile(&old_schema, "{ Ping { id value extra } }").is_err());
}

#[test]
fn bogus_part_fails_the_upload_and_leaves_no_row() {
    let mut registry = AssetRegistry::new();
    let mut manager = SchemaManager::new();
    let mut channel = Some(ControlChannel::new(4));
    let parts = vec![part("manifest", b"m"), part("bogus", b"x")];
    let done = register_index_assets(
        &mut registry,
        &mut manager,
        &mut channel,
        "demo",
        "idx1",
        Some(parts),
        1,
    );
    assert_eq!(done, Err(ApiError::InvalidAssetType("bogus".to_string())));
    assert_eq!(registry.len(), 0);
    assert!(!registry.has_index("demo", "idx1"));
    assert!(!registry.in_transaction());
    assert_eq!(channel.as_ref().unwrap().len(), 0);
}

#[test]
fn bogus_part_first_fails_the_upload_too() {
    let mut registry = AssetRegistry::new();
    let mut manager = SchemaManager::new();
    let mut channel = Some(ControlChannel::new(4));
    let parts = vec![part("bogus", b"x"), part("manifest", b"m")];
    let done = register_index_assets(
        &mut registry,
        &mut manager,
        &mut channel,
        "demo",
        "idx1",
        Some(parts),
        1,
    );
    assert_eq!(done, Err(ApiError::InvalidAssetType("bogus".to_string())));
    assert_eq!(registry.len(), 0);
}

#[test]
fn part_names_are_lower_case_and_exact() {
    for name in ["Manifest", "WASM", "schema ", "", "graphql"] {
        let mut registry = AssetRegistry::new();
        let mut manager = SchemaManager::new();
        let mut channel = Some(ControlChannel::new(4));
        let done = register_index_assets(
            &mut registry,
            &mut manager,
            &mut channel,
            "demo",
            "idx1",
            Some(vec![part(name, b"x")]),
            1,
        );
        assert_eq!(done, Err(ApiError::InvalidAssetType(name.to_string())));
    }
}

#[test]
fn failed_upload_keeps_the_rows_that_were_there() {
    let mut registry = AssetRegistry::with_capacity(3);
    let mut manager = SchemaManager::new();
    let mut channel = Some(ControlChannel::new(4));
    register_index_assets(
        &mut registry,
        &mut manager,
        &mut channel,
        "demo",
        "idx1",
        Some(vec![part("wasm", b"\0asm"), part("manifest", b"m")]),
        1,
    )
    .unwrap();
    let before = registry.assets();
    // Two more rows do not fit: the second is refused by the store.
    let done = register_index_assets(
        &mut registry,
        &mut manager,
        &mut channel,
        "demo",
        "idx1",
        Some(vec![part("wasm", b"\0asm2"), part("manifest", b"m2")]),
        2,
    );
    assert_eq!(done, Err(ApiError::Persistence));
    assert_eq!(registry.assets(), before);
    assert!(!registry.in_transaction());
    assert_eq!(channel.as_ref().unwrap().len(), 1);
}

#[test]
fn schema_that_does_not_compile_fails_the_upload() {
    let mut registry = AssetRegistry::new();
    let mut manager = SchemaManager::new();
    let mut channel = Some(ControlChannel::new(4));
    let done = register_index_assets(
        &mut registry,
        &mut manager,
        &mut channel,
        "demo",
        "idx1",
        Some(vec![part("manifest", b"m"), part("schema", b"type Ping { id ID }")]),
        1,
    );
    assert_eq!(done, Err(ApiError::Compile(CompileError::Syntax(4))));
    assert_eq!(registry.len(), 0);
    assert_eq!(manager.load_schema("demo"), Err(ApiError::NotFound("demo".to_string())));
    assert_eq!(channel.as_ref().unwrap().len(), 0);
}

#[test]
fn schema_bytes_that_are_not_utf8_are_decoded_with_replacement() {
    let mut bytes = b"type Ping { id: ID! }".to_vec();
    bytes.push(0xff);
    let mut registry = AssetRegistry::new();
    let mut manager = SchemaManager::new();
    let mut channel = Some(ControlChannel::new(4));
    let done = register_index_assets(
        &mut registry,
        &mut manager,
        &mut channel,
        "demo",
        "idx1",
        Some(vec![UploadPart { name: "schema".to_string(), data: bytes }]),
        1,
    );
    // The ill-formed byte becomes one U+FFFD, the 22nd character of the text.
    assert_eq!(done, Err(ApiError::Compile(CompileError::InvalidCharacter(21))));
    assert_eq!(
        Schema::compile("demo", "type Ping { id: ID! }\u{fffd}"),
        Err(CompileError::InvalidCharacter(21))
    );
    assert_eq!(registry.len(), 0);
}

#[test]
fn schema_bytes_with_replacement_inside_a_comma_run_still_fail() {
    let bytes = vec![b't', b'y', b'p', b'e', b' ', 0xc3, 0x28];
    let mut registry = AssetRegistry::new();
    let mut manager = SchemaManager::new();
    let mut channel = Some(ControlChannel::new(4));
    let done = register_index_assets(
        &mut registry,
        &mut manager,
        &mut channel,
        "demo",
        "idx1",
        Some(vec![UploadPart { name: "schema".to_string(), data: bytes }]),
        1,
    );
    assert_eq!(done, Err(ApiError::Compile(CompileError::InvalidCharacter(5))));
}

#[test]
fn upload_without_body_is_a_bad_request() {
    let mut registry = AssetRegistry::new();
    let mut manager = SchemaManager::new();
    let mut channel = Some(ControlChannel::new(4));
    let done =
        register_index_assets(&mut registry, &mut manager, &mut channel, "demo", "idx1", None, 1);
    assert_eq!(done, Err(ApiError::BadRequest));
    assert_eq!(registry.len(), 0);
    assert_eq!(channel.as_ref().unwrap().len(), 0);
}

#[test]
fn upload_without_parts_succeeds_with_no_asset() {
    let mut registry = AssetRegistry::new();
    let mut manager = SchemaManager::new();
    let mut channel = Some(ControlChannel::new(4));
    let done = register_index_assets(
        &mut registry,
        &mut manager,
        &mut channel,
        "demo",
        "idx1",
        Some(Vec::new()),
        1,
    );
    assert_eq!(done, Ok(Vec::new()));
    assert_eq!(registry.len(), 0);
    assert!(!registry.in_transaction());
}

#[test]
fn successful_upload_sends_exactly_one_reload() {
    let mut registry = AssetRegistry::new();
    let mut manager = SchemaManager::new();
    let mut channel = Some(ControlChannel::new(4));
    register_index_assets(
        &mut registry,
        &mut manager,
        &mut channel,
        "demo",
        "idx1",
        Some(vec![part("schema", PING.as_bytes()), part("wasm", b"\0asm")]),
        1,
    )
    .unwrap();
    let mut open = channel.unwrap();
    assert_eq!(open.len(), 1);
    assert_eq!(open.recv(), Some(reload("demo", "idx1")));
    assert_eq!(open.recv(), None);
}

#[test]
fn upload_without_channel_commits_and_reports_unavailable() {
    let mut registry = AssetRegistry::new();
    let mut manager = SchemaManager::new();
    let mut channel: Option<ControlChannel> = None;
    let done = register_index_assets(
        &mut registry,
        &mut manager,
        &mut channel,
        "demo",
        "idx1",
        Some(vec![part("manifest", b"m")]),
        1,
    );
    assert_eq!(done, Err(ApiError::Unavailable));
    assert_eq!(registry.len(), 1);
    assert!(!registry.in_transaction());
}

#[test]
fn upload_into_full_channel_commits_and_reports_undelivered() {
    let mut registry = AssetRegistry::new();
    let mut manager = SchemaManager::new();
    let mut channel = Some(ControlChannel::new(1));
    register_index_assets(
        &mut registry,
        &mut manager,
        &mut channel,
        "demo",
        "idx1",
        Some(vec![part("manifest", b"m")]),
        1,
    )
    .unwrap();
    let done = register_index_assets(
        &mut registry,
        &mut manager,
        &mut channel,
        "demo",
        "idx1",
        Some(vec![part("manifest", b"m2")]),
        2,
    );
    assert_eq!(done, Err(ApiError::Undelivered));
    assert_eq!(registry.len(), 2);
    assert_eq!(registry.latest_version("demo", "idx1", IndexAssetType::Manifest), 2);
    assert_eq!(channel.as_ref().unwrap().len(), 1);
}

#[test]
fn upload_into_unreachable_store_changes_nothing() {
    let mut registry = AssetRegistry::new();
    registry.set_connected(false);
    let mut manager = SchemaManager::new();
    let mut channel = Some(ControlChannel::new(1));
    let done = register_index_assets(
        &mut registry,
        &mut manager,
        &mut channel,
        "demo",
        "idx1",
        Some(vec![part("schema", PING.as_bytes())]),
        1,
    );
    assert_eq!(done, Err(ApiError::Persistence));
    assert!(manager.load_schema("demo").is_err());
    assert_eq!(channel.as_ref().unwrap().len(), 0);
}

#[test]
fn schema_installed_by_an_earlier_part_stays_when_a_later_part_fails() {
    let mut registry = AssetRegistry::new();
    let mut manager = SchemaManager::new();
    let mut channel = Some(ControlChannel::new(1));
    let done = register_index_assets(
        &mut registry,
        &mut manager,
        &mut channel,
        "demo",
        "idx1",
        Some(vec![part("schema", PING.as_bytes()), part("bogus", b"x")]),
        1,
    );
    assert_eq!(done, Err(ApiError::InvalidAssetType("bogus".to_string())));
    assert_eq!(registry.len(), 0);
    assert_eq!(manager.load_schema("demo"), Ok(Schema::compile("demo", PING).unwrap()));
}
