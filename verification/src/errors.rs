//! Error taxonomy and warning records of the packaging pipeline.
//!
//! Structural faults and unsupported encodings are always fatal; a rejected
//! encode is fatal with the encoder's diagnostic passed through; a missing
//! required entrypoint is fatal unless the caller downgrades it under the
//! force policy. Untrusted imports and unhandled metadata sections are never
//! fatal: they are reported as warnings.

use vstd::prelude::*;

verus! {

/// One logical entrypoint of the plugin contract.
#[derive(Clone, Copy, PartialEq, Eq, Structural, Debug)]
pub enum EntrypointId {
    /// The HTTP handler entrypoint.
    Handle,
    /// The manifest accessor entrypoint.
    Manifest,
    /// The capabilities accessor entrypoint.
    Capabilities,
}

/// Where a structural fault was detected.
#[derive(Clone, Copy, PartialEq, Eq, Structural, Debug)]
pub enum MalformedKind {
    /// The buffer is shorter than the 8-byte header, or the magic is wrong.
    Header,
    /// A section declares an extent past the end of the buffer, or a section
    /// body cannot be read as its kind demands.
    Sections,
}

/// A fatal outcome of the packaging pipeline.
#[derive(Debug)]
pub enum PipelineError {
    /// Structural parse failure; no safe artifact can exist.
    MalformedBinary { fault: MalformedKind },
    /// The version field of the header encodes neither a core module nor a
    /// component.
    UnsupportedBinary,
    /// The external component encoder rejected the module; `detail` carries
    /// its diagnostic verbatim.
    ComponentEncoding { detail: String },
    /// A required entrypoint has no acceptable alias among the exports;
    /// `missing` is the first absent one in policy order.
    ContractViolation { missing: EntrypointId },
}

/// Mathematical model of a `PipelineError`.
pub enum ErrorModel {
    Malformed(MalformedKind),
    Unsupported,
    Encoding(Seq<char>),
    Contract(EntrypointId),
}

impl View for PipelineError {
    type V = ErrorModel;

    open spec fn view(&self) -> ErrorModel {
        match self {
            PipelineError::MalformedBinary { fault } => ErrorModel::Malformed(*fault),
            PipelineError::UnsupportedBinary => ErrorModel::Unsupported,
            PipelineError::ComponentEncoding { detail } => ErrorModel::Encoding(detail@),
            PipelineError::ContractViolation { missing } => ErrorModel::Contract(*missing),
        }
    }
}

/// The human-readable text owed for each error, with its remediation hint.
pub open spec fn spec_error_message(e: ErrorModel) -> Seq<char> {
    match e {
        ErrorModel::Malformed(MalformedKind::Header) => (
        "Failed to parse wasm header for component detection")@,
        ErrorModel::Malformed(MalformedKind::Sections) => (
        "Malformed binary: a section extends past the end of the buffer. Rebuild the wasm artifact before packaging.")@,
        ErrorModel::Unsupported => (
        "Unsupported binary version: the header encodes neither a core wasm module nor a component.")@,
        ErrorModel::Encoding(detail) => (
        "Component encoding error: ")@ + detail + (
        "\nEnsure wit-bindgen version matches adapter requirements.")@,
        ErrorModel::Contract(EntrypointId::Handle) => (
        "Contract Violation: Missing required export 'handle'.\nEnsure you have implemented the Plugin trait and used 'vtx_sdk::export!(...)' macro.")@,
        ErrorModel::Contract(EntrypointId::Manifest) => (
        "Contract Violation: Missing required export 'get-manifest'.")@,
        ErrorModel::Contract(EntrypointId::Capabilities) => (
        "Contract Violation: Missing required export 'get-capabilities'.")@,
    }
}

impl PipelineError {
    /// Renders the error for operator display.
    pub fn message(&self) -> (r: String)
        ensures
            r@ == spec_error_message(self@),
    {
        match self {
            PipelineError::MalformedBinary { fault: MalformedKind::Header } => String::from_str(
                "Failed to parse wasm header for component detection",
            ),
            PipelineError::MalformedBinary { fault: MalformedKind::Sections } => String::from_str(
                "Malformed binary: a section extends past the end of the buffer. Rebuild the wasm artifact before packaging.",
            ),
            PipelineError::UnsupportedBinary => String::from_str(
                "Unsupported binary version: the header encodes neither a core wasm module nor a component.",
            ),
            PipelineError::ComponentEncoding { detail } => String::from_str(
                "Component encoding error: ",
            ).concat(detail.as_str()).concat(
                "\nEnsure wit-bindgen version matches adapter requirements.",
            ),
            PipelineError::ContractViolation { missing: EntrypointId::Handle } => String::from_str(
                "Contract Violation: Missing required export 'handle'.\nEnsure you have implemented the Plugin trait and used 'vtx_sdk::export!(...)' macro.",
            ),
            PipelineError::ContractViolation { missing: EntrypointId::Manifest } => String::from_str(
                "Contract Violation: Missing required export 'get-manifest'.",
            ),
            PipelineError::ContractViolation { missing: EntrypointId::Capabilities } => String::from_str(
                "Contract Violation: Missing required export 'get-capabilities'.",
            ),
        }
    }
}

/// A non-fatal observation emitted by a pipeline stage.
#[derive(Debug)]
pub enum Warning {
    /// An import whose namespace matches no trusted prefix.
    UntrustedImport { namespace: Vec<u8>, field: Vec<u8> },
    /// A custom section that shares the legacy prefix but not the marker
    /// substring: it is preserved, and reported instead of silently kept.
    UnhandledMetadata { name: Vec<u8> },
    /// A contract violation downgraded under the force policy.
    ContractDowngraded { missing: EntrypointId },
}

/// Mathematical model of a `Warning`.
pub enum WarningModel {
    Untrusted(Seq<u8>, Seq<u8>),
    Unhandled(Seq<u8>),
    Downgraded(EntrypointId),
}

impl View for Warning {
    type V = WarningModel;

    open spec fn view(&self) -> WarningModel {
        match self {
            Warning::UntrustedImport { namespace, field } => WarningModel::Untrusted(
                namespace@,
                field@,
            ),
            Warning::UnhandledMetadata { name } => WarningModel::Unhandled(name@),
            Warning::ContractDowngraded { missing } => WarningModel::Downgraded(*missing),
        }
    }
}

/// The views of a warning list.
pub open spec fn warn_views(ws: Seq<Warning>) -> Seq<WarningModel> {
    ws.map_values(|w: Warning| w@)
}

/// Appending a warning appends its view.
pub proof fn lemma_warn_views_push(ws: Seq<Warning>, w: Warning)
    ensures
        warn_views(ws.push(w)) == warn_views(ws).push(w@),
{
    assert(warn_views(ws.push(w)) =~= warn_views(ws).push(w@));
}

/// Warning views distribute over concatenation.
pub proof fn lemma_warn_views_concat(a: Seq<Warning>, b: Seq<Warning>)
    ensures
        warn_views(a + b) == warn_views(a) + warn_views(b),
{
    assert(warn_views(a + b) =~= warn_views(a) + warn_views(b));
}

} // verus!
