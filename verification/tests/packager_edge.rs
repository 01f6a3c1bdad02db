use vtx_cli::errors::PipelineError;
use vtx_cli::packager::process_wasm;

const CORE_MODULE_HEADER: [u8; 8] = [0x00, 0x61, 0x73, 0x6d, 0x01, 0x00, 0x00, 0x00];

fn make_component_bytes() -> anyhow::Result<Vec<u8>> {
    let mut encoder = wit_component::ComponentEncoder::default();
    encoder.module(&CORE_MODULE_HEADER)?;
    encoder.validate(false);
    let component = encoder.encode()?;
    Ok(component)
}

fn message_of(e: PipelineError) -> String {
    e.message()
}

#[test]
fn process_wasm_rejects_truncated_magic() {
    let bytes = vec![0x00u8, 0x61, 0x73, 0x6d];
    let err = process_wasm(&bytes, false).unwrap_err();
    assert!(message_of(err).contains("Failed to parse wasm header for component detection"));
}

#[test]
fn process_wasm_rejects_truncated_module_section() {
    let bytes = vec![
        0x00u8, 0x61, 0x73, 0x6d, // magic
        0x01, 0x00, 0x00, 0x00, // version
        0x01, 0x01, // type section id + size, but missing payload
    ];
    let err = process_wasm(&bytes, false).unwrap_err();
    assert!(!message_of(err).is_empty());
}

#[test]
fn process_wasm_rejects_component_header_truncated_payload() {
    let bytes = vec![
        0x00u8, 0x61, 0x73, 0x6d, // magic
        0x0d, 0x00, 0x00, 0x00, // component version
        0x01, 0x01, // pretend section id + size, but missing payload
    ];
    let err = process_wasm(&bytes, false).unwrap_err();
    assert!(!message_of(err).is_empty());
}

#[test]
fn process_wasm_rejects_large_section_length() {
    let bytes = vec![
        0x00u8, 0x61, 0x73, 0x6d, // magic
        0x01, 0x00, 0x00, 0x00, // version
        0x01, 0xff, 0xff, 0xff, 0xff, 0x0f, // type section, length = 0xffffffff
    ];
    let err = process_wasm(&bytes, false).unwrap_err();
    assert!(!message_of(err).is_empty());
}

#[test]
fn process_wasm_rejects_magic_plus_noise() {
    let bytes = vec![
        0x00u8, 0x61, 0x73, 0x6d, // magic
        0x01, 0x00, 0x00, 0x00, // version
        0xaa, 0xbb, 0xcc, 0xdd, 0xee, 0xff, // garbage payload
    ];
    let err = process_wasm(&bytes, false).unwrap_err();
    assert!(!message_of(err).is_empty());
}

#[test]
fn process_wasm_rejects_empty_input() {
    let bytes: Vec<u8> = vec![];
    let err = process_wasm(&bytes, false).unwrap_err();
    assert!(message_of(err).contains("Failed to parse wasm header for component detection"));
}

#[test]
fn process_wasm_rejects_garbage_input() {
    let bytes = vec![0xdeu8, 0xad, 0xbe, 0xef];
    let err = process_wasm(&bytes, false).unwrap_err();
    assert!(message_of(err).contains("Failed to parse wasm header for component detection"));
}

#[test]
fn process_wasm_skips_encoding_for_component() {
    let component = make_component_bytes().unwrap();
    let outcome = process_wasm(&component, true).unwrap();
    assert_eq!(outcome.bytes, component);
}

#[test]
fn process_wasm_rejects_missing_contract_without_force() {
    let component = make_component_bytes().unwrap();
    let err = process_wasm(&component, false).unwrap_err();
    assert!(message_of(err).contains("Contract Violation"));
}

#[test]
fn process_wasm_encodes_core_module_when_forced() {
    let bytes = CORE_MODULE_HEADER.to_vec();
    let outcome = process_wasm(&bytes, true).unwrap();
    assert!(outcome.bytes.len() > CORE_MODULE_HEADER.len());
}
