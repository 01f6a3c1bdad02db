use vtx_cli::errors::Warning;
use vtx_cli::strip::strip_exports_removed_bindgen_section;

const MODULE_HEADER: [u8; 8] = [0x00, 0x61, 0x73, 0x6d, 0x01, 0x00, 0x00, 0x00];

const QUALIFYING_NAME: &[u8] = b"component-type:wit-bindgen:demo-with-all-of-its-exports-removed";
const LOOKALIKE_NAME: &[u8] = b"component-type:wit-bindgen:demo";

fn custom_section(name: &[u8], extra: &[u8]) -> Vec<u8> {
    let mut payload = vec![name.len() as u8];
    payload.extend_from_slice(name);
    payload.extend_from_slice(extra);
    let mut section = vec![0x00, payload.len() as u8];
    section.extend_from_slice(&payload);
    section
}

fn type_section() -> Vec<u8> {
    vec![0x01, 0x04, 0x01, 0x60, 0x00, 0x00]
}

#[test]
fn stripper_removes_only_qualifying_sections() {
    let mut module = MODULE_HEADER.to_vec();
    module.extend_from_slice(&type_section());
    module.extend_from_slice(&custom_section(QUALIFYING_NAME, b"payload"));
    module.extend_from_slice(&custom_section(LOOKALIKE_NAME, b""));
    module.extend_from_slice(&custom_section(b"producers", b"x"));

    let mut expected = MODULE_HEADER.to_vec();
    expected.extend_from_slice(&type_section());
    expected.extend_from_slice(&custom_section(LOOKALIKE_NAME, b""));
    expected.extend_from_slice(&custom_section(b"producers", b"x"));

    let (out, warnings) = strip_exports_removed_bindgen_section(&module).unwrap();
    assert_eq!(out, expected);
    assert_eq!(warnings.len(), 1);
    match &warnings[0] {
        Warning::UnhandledMetadata { name } => assert_eq!(name.as_slice(), LOOKALIKE_NAME),
        other => panic!("expected an unhandled-metadata warning, got {other:?}"),
    }
}

#[test]
fn stripper_keeps_clean_module_byte_identical() {
    let mut module = MODULE_HEADER.to_vec();
    module.extend_from_slice(&type_section());
    module.extend_from_slice(&custom_section(b"producers", b"abc"));

    let (out, warnings) = strip_exports_removed_bindgen_section(&module).unwrap();
    assert_eq!(out, module);
    assert!(warnings.is_empty());
}

#[test]
fn stripper_is_idempotent_on_bytes() {
    let mut module = MODULE_HEADER.to_vec();
    module.extend_from_slice(&custom_section(QUALIFYING_NAME, b""));
    module.extend_from_slice(&custom_section(LOOKALIKE_NAME, b"z"));
    module.extend_from_slice(&type_section());

    let (once, _) = strip_exports_removed_bindgen_section(&module).unwrap();
    let (twice, _) = strip_exports_removed_bindgen_section(&once).unwrap();
    assert_eq!(twice, once);
}

#[test]
fn stripper_handles_multibyte_section_length() {
    // A custom section whose 200-byte payload needs a two-byte LEB length.
    let name = b"long-section";
    let mut payload = vec![name.len() as u8];
    payload.extend_from_slice(name);
    payload.extend_from_slice(&[0x7au8; 187]);
    assert_eq!(payload.len(), 200);
    let mut module = MODULE_HEADER.to_vec();
    module.push(0x00);
    module.extend_from_slice(&[0xc8, 0x01]); // 200, LEB128
    module.extend_from_slice(&payload);

    let (out, warnings) = strip_exports_removed_bindgen_section(&module).unwrap();
    assert_eq!(out, module);
    assert!(warnings.is_empty());
}

#[test]
fn stripper_rejects_unreadable_custom_name() {
    // The custom section's name length runs past the section body.
    let mut module = MODULE_HEADER.to_vec();
    module.extend_from_slice(&[0x00, 0x02, 0x7f, 0x61]);
    assert!(strip_exports_removed_bindgen_section(&module).is_err());
}

#[test]
fn stripper_rejects_oversized_section() {
    let mut module = MODULE_HEADER.to_vec();
    module.extend_from_slice(&[0x01, 0x05, 0x00]);
    assert!(strip_exports_removed_bindgen_section(&module).is_err());
}
