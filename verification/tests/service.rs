use indexer_core::auth::{authenticate_user, authorize_middleware, UNAUTHORIZED};
use indexer_core::control::ControlChannel;
use indexer_core::deploy::{exec, AssetBundle, Command, Deployment};
use indexer_core::error::{ApiError, CompileError, Operation};
use indexer_core::manager::SchemaManager;
use indexer_core::metrics::{metrics, HttpReply};
use indexer_core::registry::AssetRegistry;
use indexer_core::status::{
    get_fuel_status, health_check, FuelNodeHealthResponse, HealthProbe, HealthReport,
    ServiceStatus,
};
use indexer_core::text::{chars_of, copy_bytes, copy_text, decimal, slice_of, text_eq};
use indexer_core::upload::{register_index_assets, UploadPart};

#[test]
fn node_is_ok_only_where_it_says_that_it_is_up() {
    let up = FuelNodeHealthResponse { up: true };
    let down = FuelNodeHealthResponse { up: false };
    assert_eq!(get_fuel_status(HealthProbe::Answered(Some(up))), ServiceStatus::OK);
    assert_eq!(get_fuel_status(HealthProbe::Answered(Some(down))), ServiceStatus::NotOk);
    assert_eq!(get_fuel_status(HealthProbe::Answered(None)), ServiceStatus::NotOk);
    assert_eq!(
        get_fuel_status(HealthProbe::Unreachable("connection refused".to_string())),
        ServiceStatus::NotOk
    );
    assert_eq!(FuelNodeHealthResponse::default(), down);
    assert_eq!(ServiceStatus::from(up), ServiceStatus::OK);
    assert_eq!(ServiceStatus::from(down), ServiceStatus::NotOk);
}

#[test]
fn health_report_combines_store_node_and_uptime() {
    let mut registry = AssetRegistry::new();
    let up = HealthProbe::Answered(Some(FuelNodeHealthResponse { up: true }));
    assert_eq!(
        health_check(&registry, up.clone(), 42),
        HealthReport {
            fuel_core_status: ServiceStatus::OK,
            uptime_seconds: 42,
            database_status: ServiceStatus::OK,
        }
    );
    registry.set_connected(false);
    assert_eq!(
        health_check(&registry, HealthProbe::Unreachable("down".to_string()), 43),
        HealthReport {
            fuel_core_status: ServiceStatus::NotOk,
            uptime_seconds: 43,
            database_status: ServiceStatus::NotOk,
        }
    );
    assert_eq!(health_check(&registry, up, 0).database_status, ServiceStatus::NotOk);
}

#[test]
fn request_without_authorization_header_is_unauthorized() {
    assert_eq!(UNAUTHORIZED, 401);
    assert_eq!(authorize_middleware(None), Err(401));
    assert_eq!(authorize_middleware(Some("Bearer abc")), Ok(Ok(true)));
    assert_eq!(authorize_middleware(Some("")), Ok(Ok(true)));
    assert_eq!(authenticate_user("anyone"), Some(Ok(true)));
}

#[test]
fn metrics_endpoint_answers_by_what_was_encoded() {
    assert_eq!(
        metrics(None),
        HttpReply {
            status: 404,
            content_type: None,
            body: b"Metrics collection disabled.".to_vec(),
        }
    );
    assert_eq!(
        metrics(Some(Err("broken".to_string()))),
        HttpReply { status: 500, content_type: None, body: b"Error".to_vec() }
    );
    assert_eq!(
        metrics(Some(Ok((b"up 1\n".to_vec(), "text/plain; version=0.0.4".to_string())))),
        HttpReply {
            status: 200,
            content_type: Some("text/plain; version=0.0.4".to_string()),
            body: b"up 1\n".to_vec(),
        }
    );
}

fn bundle() -> AssetBundle {
    AssetBundle {
        namespace: "demo".to_string(),
        identifier: "idx1".to_string(),
        manifest: b"namespace: demo".to_vec(),
        schema: b"type Ping { id: ID! }".to_vec(),
        wasm: b"\0asm".to_vec(),
    }
}

#[test]
fn deployment_addresses_the_index_and_names_its_parts() {
    let command = Command {
        url: "http://127.0.0.1:29987".to_string(),
        manifest: "index.yaml".to_string(),
        auth: Some("Bearer abc".to_string()),
    };
    assert_eq!(
        exec(command, bundle()),
        Deployment {
            target: "http://127.0.0.1:29987/api/index/demo/idx1".to_string(),
            authorization: Some("Bearer abc".to_string()),
            parts: vec![
                UploadPart { name: "manifest".to_string(), data: b"namespace: demo".to_vec() },
                UploadPart { name: "schema".to_string(), data: b"type Ping { id: ID! }".to_vec() },
                UploadPart { name: "wasm".to_string(), data: b"\0asm".to_vec() },
            ],
        }
    );
}

#[test]
fn deployment_is_taken_by_the_upload() {
    let command = Command { url: "http://host".to_string(), manifest: "m".to_string(), auth: None };
    let deployment = exec(command, bundle());
    assert_eq!(deployment.authorization, None);
    let mut registry = AssetRegistry::new();
    let mut manager = SchemaManager::new();
    let mut channel = Some(ControlChannel::new(1));
    let assets = register_index_assets(
        &mut registry,
        &mut manager,
        &mut channel,
        "demo",
        "idx1",
        Some(deployment.parts),
        5,
    )
    .unwrap();
    assert_eq!(assets.len(), 3);
    assert!(manager.load_schema("demo").is_ok());
}

#[test]
fn failed_query_is_the_callers_fault_where_it_names_what_is_unknown() {
    let unknown = ApiError::Compile(CompileError::UnknownField("Ping".into(), "extra".into()));
    assert_eq!(unknown.status(Operation::Query), 400);
    assert_eq!(unknown.message(), "Unknown field 'extra' of type 'Ping'.");
    let missing = ApiError::NotFound("The graph 'nope' was not found.".into());
    assert_eq!(missing.status(Operation::Query), 404);
    assert_eq!(missing.message(), "The graph 'nope' was not found.");
    assert_eq!(ApiError::Execution("boom".into()).status(Operation::Query), 500);
    assert_eq!(ApiError::Execution("boom".into()).message(), "boom");
}

#[test]
fn failed_upload_or_stop_is_the_services_fault() {
    let errors = vec![
        ApiError::NotFound("demo/idx1".into()),
        ApiError::InvalidAssetType("bogus".into()),
        ApiError::Compile(CompileError::Syntax(3)),
        ApiError::Persistence,
        ApiError::Unavailable,
        ApiError::Undelivered,
        ApiError::BadRequest,
    ];
    for error in errors {
        assert_eq!(error.status(Operation::Upload), 500);
        assert_eq!(error.status(Operation::Stop), 500);
    }
}

#[test]
fn every_failure_has_its_sentence() {
    assert_eq!(
        ApiError::InvalidAssetType("bogus".into()).message(),
        "Invalid asset type 'bogus'."
    );
    assert_eq!(ApiError::Persistence.message(), "The store refused the request.");
    assert_eq!(ApiError::Unavailable.message(), "No execution pool is attached.");
    assert_eq!(ApiError::Undelivered.message(), "The execution pool could not be told.");
    assert_eq!(ApiError::BadRequest.message(), "The request has no body.");
    assert_eq!(
        CompileError::InvalidCharacter(21).message(),
        "Invalid character at position 21."
    );
    assert_eq!(CompileError::Syntax(0).message(), "Unexpected token at index 0.");
    assert_eq!(CompileError::DuplicateType("A".into()).message(), "Type 'A' is declared twice.");
    assert_eq!(
        CompileError::DuplicateField("A".into(), "a".into()).message(),
        "Field 'a' of type 'A' is declared twice."
    );
    assert_eq!(CompileError::UnknownType("Pong".into()).message(), "Unknown type 'Pong'.");
    assert_eq!(
        CompileError::NotAnObject("Ping".into(), "id".into()).message(),
        "Field 'id' of type 'Ping' holds no object."
    );
    assert_eq!(
        CompileError::MissingSelection("Ping".into()).message(),
        "Type 'Ping' needs a selection."
    );
    assert_eq!(
        ApiError::Compile(CompileError::UnknownType("Pong".into())).message(),
        "Unknown type 'Pong'."
    );
}

#[test]
fn numbers_are_written_in_decimal() {
    assert_eq!(decimal(0), "0");
    assert_eq!(decimal(7), "7");
    assert_eq!(decimal(10), "10");
    assert_eq!(decimal(1234567890), "1234567890");
    assert_eq!(decimal(usize::MAX), usize::MAX.to_string());
}

#[test]
fn text_helpers_compare_copy_and_slice() {
    assert!(text_eq("schema", "schema"));
    assert!(!text_eq("schema", "Schema"));
    assert!(!text_eq("schema", "schem"));
    assert!(text_eq("", ""));
    assert!(text_eq("é∑", "é∑"));
    assert!(!text_eq("é", "e"));
    assert_eq!(chars_of("aé∑"), vec!['a', 'é', '∑']);
    assert_eq!(slice_of("aé∑b", 1, 3), "é∑");
    assert_eq!(slice_of("abc", 2, 2), "");
    assert_eq!(copy_text(&"abc".to_string()), "abc");
    assert_eq!(copy_bytes(&vec![1, 2, 3]), vec![1, 2, 3]);
}
