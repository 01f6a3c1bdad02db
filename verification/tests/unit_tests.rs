use vtx_cli::checker::{is_compatible, normalize_version_req};
use vtx_cli::common::{normalize_language, resolve_sdk_version};
use vtx_cli::errors::{EntrypointId, MalformedKind, PipelineError};
use vtx_cli::kind::{detect_kind, BinaryKind};
use vtx_cli::packager::validate_contract;
use vtx_cli::policy::TrustedNamespacePolicy;
use vtx_cli::templates;

#[test]
fn kind_detector_classifies_module_and_component() {
    let module = vec![0x00u8, 0x61, 0x73, 0x6d, 0x01, 0x00, 0x00, 0x00];
    assert_eq!(detect_kind(&module).unwrap(), BinaryKind::CoreModule);
    let component = vec![0x00u8, 0x61, 0x73, 0x6d, 0x0d, 0x00, 0x01, 0x00];
    assert_eq!(detect_kind(&component).unwrap(), BinaryKind::Component);
    let unknown = vec![0x00u8, 0x61, 0x73, 0x6d, 0x0d, 0x00, 0x00, 0x00];
    assert!(matches!(detect_kind(&unknown).unwrap_err(), PipelineError::UnsupportedBinary));
    let bad_magic = vec![0x01u8, 0x61, 0x73, 0x6d, 0x01, 0x00, 0x00, 0x00];
    assert!(matches!(
        detect_kind(&bad_magic).unwrap_err(),
        PipelineError::MalformedBinary { fault: MalformedKind::Header }
    ));
}

#[test]
fn trusted_namespace_prefix_matching() {
    let policy = TrustedNamespacePolicy::standard();
    assert!(policy.is_trusted(b"wasi_snapshot_preview1"));
    assert!(policy.is_trusted(b"wasi:http/incoming-handler"));
    assert!(policy.is_trusted(b"vtx:api"));
    assert!(policy.is_trusted(b"env"));
    assert!(!policy.is_trusted(b"unknown:lib"));
    assert!(!policy.is_trusted(b"wasi"));
    assert!(!policy.is_trusted(b"Vtx:api"));
}

#[test]
fn version_compatibility_requires_exact_match_after_cleanup() {
    assert!(is_compatible(b"^0.1.2", b"0.1.2"));
    assert!(is_compatible(b"~=0.1.2", b"0.1.2"));
    assert!(is_compatible(b"0.1.2", b"0.1.2"));
    assert!(!is_compatible(b"0.1.3", b"0.1.2"));
    assert!(!is_compatible(b"^0.1", b"0.1.2"));
    assert_eq!(normalize_version_req(b"~1.0"), b"1.0".to_vec());
    assert_eq!(normalize_version_req(b"2.0"), b"2.0".to_vec());
}

#[test]
fn language_identifiers_are_normalized() {
    assert_eq!(normalize_language(b"RS"), b"rust".to_vec());
    assert_eq!(normalize_language(b"rust"), b"rust".to_vec());
    assert_eq!(normalize_language(b"TypeScript"), b"ts".to_vec());
    assert_eq!(normalize_language(b"node"), b"ts".to_vec());
    assert_eq!(normalize_language(b"py"), b"python".to_vec());
    assert_eq!(normalize_language(b"Lua"), b"lua".to_vec());
}

#[test]
fn sdk_version_resolution_is_rust_only() {
    assert_eq!(
        resolve_sdk_version(b"rust", Some(b"^0.1.2".to_vec())),
        Some(b"0.1.2".to_vec())
    );
    assert_eq!(resolve_sdk_version(b"RS", Some(b"0.1.2".to_vec())), Some(b"0.1.2".to_vec()));
    assert_eq!(resolve_sdk_version(b"go", Some(b"0.1.2".to_vec())), None);
    assert_eq!(resolve_sdk_version(b"rust", None), None);
}

#[test]
fn error_messages_carry_their_hints() {
    let header = PipelineError::MalformedBinary { fault: MalformedKind::Header };
    assert_eq!(header.message(), "Failed to parse wasm header for component detection");
    let manifest = PipelineError::ContractViolation { missing: EntrypointId::Manifest };
    assert_eq!(manifest.message(), "Contract Violation: Missing required export 'get-manifest'.");
    let handle = PipelineError::ContractViolation { missing: EntrypointId::Handle };
    assert!(handle.message().contains("Missing required export 'handle'"));
    let encoding = PipelineError::ComponentEncoding { detail: "boom".to_string() };
    assert_eq!(
        encoding.message(),
        "Component encoding error: boom\nEnsure wit-bindgen version matches adapter requirements."
    );
}

#[test]
fn validate_contract_names_the_first_missing_entrypoint() {
    let mut encoder = wit_component::ComponentEncoder::default();
    let header = [0x00u8, 0x61, 0x73, 0x6d, 0x01, 0x00, 0x00, 0x00];
    encoder.module(&header).unwrap();
    encoder.validate(false);
    let component = encoder.encode().unwrap();
    let err = validate_contract(&component).unwrap_err();
    assert!(err.message().contains("Missing required export 'handle'"));
}

#[test]
fn templates_interpolate_the_package_name() {
    let cargo = templates::rust_cargo_toml("demo");
    assert!(cargo.starts_with("[package]\nname = \"demo\"\n"));
    assert!(cargo.contains("vtx-sdk = \"0.1.2\""));
    let config = templates::rust_config_rs("demo");
    assert!(config.contains("PLUGIN_ID: &str = \"vtx.demo\""));
    assert!(config.contains("PLUGIN_NAME: &str = \"demo\""));
    let vtx = templates::rust_vtx_toml("demo");
    assert!(vtx.starts_with("vtx_version = 1\n"));
    assert!(vtx.contains("name = \"demo\""));
    assert!(vtx.contains("language = \"rust\""));
    let pkg = templates::ts_package_json("demo");
    assert!(pkg.starts_with("{\n  \"name\": \"demo\""));
    assert_eq!(templates::ts_index_ts(), "export {};\n");
    assert_eq!(templates::python_init_py(), "# plugin entry\n");
    assert!(templates::pyproject_toml("demo").contains("name = \"demo\""));
    assert!(templates::ts_vtx_toml("demo").contains("language = \"ts\""));
    assert!(templates::python_vtx_toml("demo").contains("language = \"python\""));
    assert!(templates::rust_lib_rs().contains("export_plugin!(Plugin);"));
}
