use vtx_cli::audit::audit_imports;
use vtx_cli::errors::{EntrypointId, PipelineError, Warning};
use vtx_cli::packager::{check_entrypoints, process_wasm};
use vtx_cli::policy::{RequiredEntrypointPolicy, TrustedNamespacePolicy};
use vtx_cli::strip::strip_exports_removed_bindgen_section;

const MODULE_HEADER: [u8; 8] = [0x00, 0x61, 0x73, 0x6d, 0x01, 0x00, 0x00, 0x00];

fn custom_section(name: &[u8], extra: &[u8]) -> Vec<u8> {
    let mut payload = vec![name.len() as u8];
    payload.extend_from_slice(name);
    payload.extend_from_slice(extra);
    let mut section = vec![0x00, payload.len() as u8];
    section.extend_from_slice(&payload);
    section
}

fn empty_type_section() -> Vec<u8> {
    // One function type with no parameters and no results.
    vec![0x01, 0x04, 0x01, 0x60, 0x00, 0x00]
}

fn import_section(namespace: &[u8], field: &[u8]) -> Vec<u8> {
    // One function import of type index 0.
    let mut payload = vec![0x01, namespace.len() as u8];
    payload.extend_from_slice(namespace);
    payload.push(field.len() as u8);
    payload.extend_from_slice(field);
    payload.push(0x00); // function import
    payload.push(0x00); // type index 0
    let mut section = vec![0x02, payload.len() as u8];
    section.extend_from_slice(&payload);
    section
}

fn make_empty_component() -> Vec<u8> {
    let mut encoder = wit_component::ComponentEncoder::default();
    encoder.module(&MODULE_HEADER).unwrap();
    encoder.validate(false);
    encoder.encode().unwrap()
}

#[test]
fn scenario_clean_module_has_zero_warnings() {
    let mut module = MODULE_HEADER.to_vec();
    module.extend_from_slice(&empty_type_section());
    module.extend_from_slice(&custom_section(b"producers", b""));

    let (cleaned, strip_warnings) = strip_exports_removed_bindgen_section(&module).unwrap();
    assert_eq!(cleaned, module);
    assert!(strip_warnings.is_empty());

    let policy = TrustedNamespacePolicy::standard();
    let audit_warnings = audit_imports(&module, &policy).unwrap();
    assert!(audit_warnings.is_empty());

    let names = vec![
        b"handle".to_vec(),
        b"get-manifest".to_vec(),
        b"get-capabilities".to_vec(),
    ];
    let contract = RequiredEntrypointPolicy::standard();
    assert!(check_entrypoints(&contract, &names).is_none());
}

#[test]
fn scenario_untrusted_import_is_reported() {
    let mut module = MODULE_HEADER.to_vec();
    module.extend_from_slice(&empty_type_section());
    module.extend_from_slice(&import_section(b"unknown:lib", b"foo"));

    let policy = TrustedNamespacePolicy::standard();
    let warnings = audit_imports(&module, &policy).unwrap();
    assert_eq!(warnings.len(), 1);
    match &warnings[0] {
        Warning::UntrustedImport { namespace, field } => {
            assert_eq!(namespace.as_slice(), b"unknown:lib");
            assert_eq!(field.as_slice(), b"foo");
        },
        other => panic!("expected an untrusted-import warning, got {other:?}"),
    }
}

#[test]
fn scenario_trusted_import_is_silent() {
    let mut module = MODULE_HEADER.to_vec();
    module.extend_from_slice(&empty_type_section());
    module.extend_from_slice(&import_section(b"wasi_snapshot_preview1", b"fd_write"));

    let policy = TrustedNamespacePolicy::standard();
    let warnings = audit_imports(&module, &policy).unwrap();
    assert!(warnings.is_empty());
}

#[test]
fn scenario_missing_manifest_is_named() {
    let names = vec![b"handle".to_vec(), b"get-capabilities".to_vec()];
    let contract = RequiredEntrypointPolicy::standard();
    assert_eq!(check_entrypoints(&contract, &names), Some(EntrypointId::Manifest));
}

#[test]
fn scenario_component_contract_force_downgrade() {
    let component = make_empty_component();

    let err = process_wasm(&component, false).unwrap_err();
    assert!(matches!(err, PipelineError::ContractViolation { .. }));

    let outcome = process_wasm(&component, true).unwrap();
    assert_eq!(outcome.bytes, component);
    assert_eq!(outcome.warnings.len(), 1);
    assert!(matches!(
        outcome.warnings[0],
        Warning::ContractDowngraded { missing: EntrypointId::Handle }
    ));
}

fn component_export_entry(name: &[u8], kind: u8, index: u8) -> Vec<u8> {
    let mut entry = vec![0x00, name.len() as u8];
    entry.extend_from_slice(name);
    entry.push(kind);
    entry.push(index);
    entry.push(0x00); // no ascribed type
    entry
}

fn component_with_exports(names: &[&[u8]]) -> Vec<u8> {
    let mut payload = vec![names.len() as u8];
    for (i, name) in names.iter().enumerate() {
        payload.extend_from_slice(&component_export_entry(name, 0x01, i as u8));
    }
    let mut component = vec![0x00u8, 0x61, 0x73, 0x6d, 0x0d, 0x00, 0x01, 0x00];
    component.push(0x0b); // component export section
    component.push(payload.len() as u8);
    component.extend_from_slice(&payload);
    component
}

#[test]
fn scenario_component_missing_only_manifest() {
    let component = component_with_exports(&[b"handle", b"get-capabilities"]);

    let err = process_wasm(&component, false).unwrap_err();
    assert!(matches!(
        err,
        PipelineError::ContractViolation { missing: EntrypointId::Manifest }
    ));
    assert!(err.message().contains("Missing required export 'get-manifest'"));

    let outcome = process_wasm(&component, true).unwrap();
    assert_eq!(outcome.bytes, component);
    assert_eq!(outcome.warnings.len(), 1);
    assert!(matches!(
        outcome.warnings[0],
        Warning::ContractDowngraded { missing: EntrypointId::Manifest }
    ));
}

#[test]
fn scenario_component_with_full_contract_passes() {
    let component = component_with_exports(&[
        b"handle",
        b"vtx:api/plugin/get-manifest",
        b"get-capabilities",
    ]);
    let outcome = process_wasm(&component, false).unwrap();
    assert_eq!(outcome.bytes, component);
    assert!(outcome.warnings.is_empty());
}

#[test]
fn scenario_truncated_buffer_is_malformed() {
    let bytes = vec![0x00u8, 0x61, 0x73, 0x6d];
    let err = process_wasm(&bytes, false).unwrap_err();
    assert!(matches!(err, PipelineError::MalformedBinary { .. }));
}

#[test]
fn unsupported_version_field_is_not_malformed() {
    let bytes = vec![0x00u8, 0x61, 0x73, 0x6d, 0x02, 0x00, 0x00, 0x00];
    let err = process_wasm(&bytes, false).unwrap_err();
    assert!(matches!(err, PipelineError::UnsupportedBinary));
}

#[test]
fn encoder_rejection_is_reported_verbatim() {
    // Structurally sound, but the type section's contents are nonsense, so
    // the external encoder rejects the module.
    let mut module = MODULE_HEADER.to_vec();
    module.extend_from_slice(&[0x01, 0x01, 0xff]);
    let err = process_wasm(&module, true).unwrap_err();
    assert!(matches!(err, PipelineError::ComponentEncoding { .. }));
    assert!(err.message().contains("Component encoding error"));
}
