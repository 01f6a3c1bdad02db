//! Packaging orchestrator: classifies the input, strips legacy metadata,
//! audits imports, requests adapter injection from the external component
//! encoder, and validates the export contract of the result.
//!
//! An already-assembled component skips stripping, auditing and encoding
//! entirely and goes straight to contract validation: it is never
//! re-encoded, so its bytes pass through unchanged. The force flag affects
//! only the contract check: a violation is then downgraded to a warning and
//! the artifact is emitted anyway.

use vstd::prelude::*;
use crate::audit::{audit_imports, spec_imports, untrusted_models};
use crate::errors::{
    lemma_warn_views_concat, lemma_warn_views_push, warn_views, EntrypointId, ErrorModel,
    MalformedKind, PipelineError, Warning, WarningModel,
};
use crate::kind::{detect_kind, spec_header_ok, spec_kind, BinaryKind};
use crate::policy::{
    spec_all_present, spec_entry_order, spec_entry_present, spec_first_missing,
    spec_trusted_prefixes, entry_present, RequiredEntrypointPolicy, TrustedNamespacePolicy,
};
use crate::scanner::spec_scan;
use crate::strip::{
    strip_exports_removed_bindgen_section, spec_strip, spec_strippable, unhandled_models,
    unhandled_names,
};
use vstd::slice::slice_to_vec;

verus! {

/// What the external component encoder returns for a module: the assembled
/// component's bytes, or its diagnostic message. The result depends on the
/// module bytes alone.
pub uninterp spec fn encoded_component(m: Seq<u8>) -> Result<Seq<u8>, Seq<char>>;

/// Relies on wit_component::ComponentEncoder (its module, adapter, validate
/// and encode methods): assembles a core module with the preview1 reactor
/// adapter into a validated component, or reports why it cannot.
#[verifier::external_body]
fn encode_with_reactor_adapter(module: &[u8]) -> (r: Result<Vec<u8>, String>)
    ensures
        match r {
            Ok(c) => encoded_component(module@) == Ok::<Seq<u8>, Seq<char>>(c@),
            Err(e) => encoded_component(module@) == Err::<Seq<u8>, Seq<char>>(e@),
        },
{
    let mut enc = wit_component::ComponentEncoder::default();
    if let Err(e) = enc.module(module) {
        return Err(e.to_string());
    }
    let name = wasi_preview1_component_adapter_provider::WASI_SNAPSHOT_PREVIEW1_ADAPTER_NAME;
    let bytes = wasi_preview1_component_adapter_provider::WASI_SNAPSHOT_PREVIEW1_REACTOR_ADAPTER;
    if let Err(e) = enc.adapter(name, bytes) {
        return Err(e.to_string());
    }
    enc.validate(true);
    enc.encode().map_err(|e| e.to_string())
}

/// What export enumeration of a component yields: its export names in
/// order, or `None` when the binary cannot be parsed. The result depends on
/// the bytes alone.
pub uninterp spec fn component_export_names(b: Seq<u8>) -> Option<Seq<Seq<u8>>>;

/// Relies on wasmparser::Parser::parse_all and its component export section
/// reader: lists the export names of a component, in order.
#[verifier::external_body]
fn list_component_exports(component: &[u8]) -> (r: Option<Vec<Vec<u8>>>)
    ensures
        match r {
            Some(v) => component_export_names(component@) == Some(
                v@.map_values(|nm: Vec<u8>| nm@),
            ),
            None => component_export_names(component@) is None,
        },
{
    let mut names: Vec<Vec<u8>> = Vec::new();
    for payload in wasmparser::Parser::new(0).parse_all(component) {
        match payload {
            Ok(wasmparser::Payload::ComponentExportSection(reader)) => {
                for export in reader {
                    let e = match export { Ok(e) => e, Err(_) => return None };
                    names.push(e.name.name.as_bytes().to_vec());
                }
            },
            Ok(_) => {},
            Err(_) => return None,
        }
    }
    Some(names)
}

/// Checks the export names against the required-entrypoint policy: `None`
/// when every entrypoint has an alias present, otherwise the first missing
/// entrypoint in policy order.
pub fn check_entrypoints(policy: &RequiredEntrypointPolicy, names: &Vec<Vec<u8>>) -> (r: Option<
    EntrypointId,
>)
    requires
        policy.is_standard(),
    ensures
        ({
            let models = names@.map_values(|nm: Vec<u8>| nm@);
            match r {
                None => spec_all_present(models),
                Some(e) => !spec_all_present(models) && e == spec_first_missing(models),
            }
        }),
{
    let ghost models = names@.map_values(|nm: Vec<u8>| nm@);
    proof {
        assert(policy.entries@[0].id == EntrypointId::Handle);
        assert(policy.entries@[1].id == EntrypointId::Manifest);
        assert(policy.entries@[2].id == EntrypointId::Capabilities);
    }
    let h = entry_present(&policy.entries[0], names);
    let m = entry_present(&policy.entries[1], names);
    let c = entry_present(&policy.entries[2], names);
    proof {
        assert(h == spec_entry_present(models, EntrypointId::Handle));
        assert(m == spec_entry_present(models, EntrypointId::Manifest));
        assert(c == spec_entry_present(models, EntrypointId::Capabilities));
        if h && m && c {
            assert forall|k: int| 0 <= k < spec_entry_order().len() implies spec_entry_present(
                models,
                #[trigger] spec_entry_order()[k],
            ) by {
                if k == 0 {
                } else if k == 1 {
                } else {
                    assert(spec_entry_order()[k] == EntrypointId::Capabilities);
                }
            }
        } else {
            assert(!spec_all_present(models)) by {
                if !h {
                    assert(!spec_entry_present(models, spec_entry_order()[0]));
                } else if !m {
                    assert(!spec_entry_present(models, spec_entry_order()[1]));
                } else {
                    assert(!spec_entry_present(models, spec_entry_order()[2]));
                }
            }
        }
    }
    if !h {
        Some(EntrypointId::Handle)
    } else if !m {
        Some(EntrypointId::Manifest)
    } else if !c {
        Some(EntrypointId::Capabilities)
    } else {
        None
    }
}

/// Validates the export contract of a component: every required entrypoint
/// must be present under at least one of its aliases. On failure the error
/// names the first missing entrypoint in policy order.
pub fn validate_contract(component: &[u8]) -> (r: Result<(), PipelineError>)
    ensures
        match component_export_names(component@) {
            Some(names) => match r {
                Ok(()) => spec_all_present(names),
                Err(e) => !spec_all_present(names) && e@ == ErrorModel::Contract(
                    spec_first_missing(names),
                ),
            },
            None => r matches Err(e) && e@ == ErrorModel::Malformed(MalformedKind::Sections),
        },
{
    let names = match list_component_exports(component) {
        Some(v) => v,
        None => {
            return Err(PipelineError::MalformedBinary { fault: MalformedKind::Sections });
        },
    };
    let policy = RequiredEntrypointPolicy::standard();
    match check_entrypoints(&policy, &names) {
        None => Ok(()),
        Some(missing) => Err(PipelineError::ContractViolation { missing }),
    }
}

/// The artifact of one packaging run: the final component bytes, and the
/// non-fatal warnings collected along the way.
#[derive(Debug)]
pub struct PackagingOutcome {
    pub bytes: Vec<u8>,
    pub warnings: Vec<Warning>,
}

/// The contract check applied to finished component bytes, with the force
/// policy: a violation either aborts or is downgraded to one more warning.
pub open spec fn spec_finish(
    bytes: Seq<u8>,
    warns: Seq<WarningModel>,
    force: bool,
) -> Result<(Seq<u8>, Seq<WarningModel>), ErrorModel> {
    match component_export_names(bytes) {
        None => Err(ErrorModel::Malformed(MalformedKind::Sections)),
        Some(names) => if spec_all_present(names) {
            Ok((bytes, warns))
        } else if force {
            Ok((bytes, warns.push(WarningModel::Downgraded(spec_first_missing(names)))))
        } else {
            Err(ErrorModel::Contract(spec_first_missing(names)))
        },
    }
}

/// What the whole pipeline owes for a given input and force flag.
pub open spec fn spec_process(b: Seq<u8>, force: bool) -> Result<
    (Seq<u8>, Seq<WarningModel>),
    ErrorModel,
> {
    if !spec_header_ok(b) {
        Err(ErrorModel::Malformed(MalformedKind::Header))
    } else {
        match spec_kind(b) {
            None => Err(ErrorModel::Unsupported),
            Some(BinaryKind::Component) => spec_finish(b, Seq::empty(), force),
            Some(BinaryKind::CoreModule) => if !spec_strippable(b) {
                Err(ErrorModel::Malformed(MalformedKind::Sections))
            } else {
                let secs = spec_scan(b)->Some_0;
                match spec_imports(b, secs) {
                    None => Err(ErrorModel::Malformed(MalformedKind::Sections)),
                    Some(imports) => {
                        let warns = unhandled_models(unhandled_names(b, secs))
                            + untrusted_models(spec_trusted_prefixes(), imports);
                        match encoded_component(spec_strip(b)) {
                            Err(msg) => Err(ErrorModel::Encoding(msg)),
                            Ok(c) => spec_finish(c, warns, force),
                        }
                    },
                }
            },
        }
    }
}

/// Runs the contract gate on finished component bytes and applies the
/// force policy.
fn finish_with_contract(bytes: Vec<u8>, warnings: Vec<Warning>, force: bool) -> (r: Result<
    PackagingOutcome,
    PipelineError,
>)
    ensures
        match r {
            Ok(o) => spec_finish(bytes@, warn_views(warnings@), force) == Ok::<
                (Seq<u8>, Seq<WarningModel>),
                ErrorModel,
            >((o.bytes@, warn_views(o.warnings@))),
            Err(e) => spec_finish(bytes@, warn_views(warnings@), force) == Err::<
                (Seq<u8>, Seq<WarningModel>),
                ErrorModel,
            >(e@),
        },
{
    let mut warnings = warnings;
    let names = match list_component_exports(bytes.as_slice()) {
        Some(v) => v,
        None => {
            return Err(PipelineError::MalformedBinary { fault: MalformedKind::Sections });
        },
    };
    let policy = RequiredEntrypointPolicy::standard();
    match check_entrypoints(&policy, &names) {
        None => Ok(PackagingOutcome { bytes, warnings }),
        Some(missing) => if force {
            proof {
                lemma_warn_views_push(warnings@, Warning::ContractDowngraded { missing });
            }
            warnings.push(Warning::ContractDowngraded { missing });
            Ok(PackagingOutcome { bytes, warnings })
        } else {
            Err(PipelineError::ContractViolation { missing })
        },
    }
}

/// The packaging pipeline over a raw wasm binary. Classifies the input,
/// takes a component straight to contract validation and returns its bytes
/// unchanged; takes a core module through stripping, import auditing,
/// adapter injection by the external encoder, and contract validation.
/// Warnings are reported in stage order: unhandled metadata, untrusted
/// imports, then a force-downgraded contract violation if any.
pub fn process_wasm(input: &[u8], force: bool) -> (r: Result<PackagingOutcome, PipelineError>)
    ensures
        match r {
            Ok(o) => spec_process(input@, force) == Ok::<
                (Seq<u8>, Seq<WarningModel>),
                ErrorModel,
            >((o.bytes@, warn_views(o.warnings@))),
            Err(e) => spec_process(input@, force) == Err::<
                (Seq<u8>, Seq<WarningModel>),
                ErrorModel,
            >(e@),
        },
{
    let kind = match detect_kind(input) {
        Ok(k) => k,
        Err(e) => {
            return Err(e);
        },
    };
    match kind {
        BinaryKind::Component => {
            let bytes = slice_to_vec(input);
            let warnings: Vec<Warning> = Vec::new();
            proof {
                assert(warn_views(warnings@) =~= Seq::<WarningModel>::empty());
            }
            finish_with_contract(bytes, warnings, force)
        },
        BinaryKind::CoreModule => {
            let (cleaned, warnings) = match strip_exports_removed_bindgen_section(input) {
                Ok(p) => p,
                Err(e) => {
                    return Err(e);
                },
            };
            let mut warnings = warnings;
            let trust = TrustedNamespacePolicy::standard();
            let mut untrusted = match audit_imports(input, &trust) {
                Ok(w) => w,
                Err(e) => {
                    return Err(e);
                },
            };
            proof {
                lemma_warn_views_concat(warnings@, untrusted@);
            }
            warnings.append(&mut untrusted);
            match encode_with_reactor_adapter(cleaned.as_slice()) {
                Err(detail) => Err(PipelineError::ComponentEncoding { detail }),
                Ok(component) => finish_with_contract(component, warnings, force),
            }
        },
    }
}

/// Fast-path invariance: a buffer classified as a component is never
/// re-encoded, so any successful pipeline run returns its bytes unchanged.
pub proof fn lemma_fast_path_invariance(b: Seq<u8>, force: bool)
    requires
        spec_header_ok(b),
        spec_kind(b) == Some(BinaryKind::Component),
        spec_process(b, force) is Ok,
    ensures
        spec_process(b, force)->Ok_0.0 == b,
{
}

/// Contract gate: when a component input lacks every alias of one required
/// entrypoint, the pipeline fails without force and succeeds with force,
/// returning the bytes unchanged with exactly one downgraded-contract
/// warning.
pub proof fn lemma_contract_gate(b: Seq<u8>, e: EntrypointId)
    requires
        spec_header_ok(b),
        spec_kind(b) == Some(BinaryKind::Component),
        component_export_names(b) is Some,
        forall|i: int|
            0 <= i < component_export_names(b)->Some_0.len()
                ==> !crate::policy::spec_name_matches(
                e,
                #[trigger] component_export_names(b)->Some_0[i],
            ),
    ensures
        spec_process(b, false) == Err::<(Seq<u8>, Seq<WarningModel>), ErrorModel>(
            ErrorModel::Contract(spec_first_missing(component_export_names(b)->Some_0)),
        ),
        spec_process(b, true) == Ok::<(Seq<u8>, Seq<WarningModel>), ErrorModel>(
            (
                b,
                seq![
                    WarningModel::Downgraded(
                        spec_first_missing(component_export_names(b)->Some_0),
                    ),
                ],
            ),
        ),
{
    let names = component_export_names(b)->Some_0;
    assert(!spec_entry_present(names, e));
    let k: int = match e {
        EntrypointId::Handle => 0,
        EntrypointId::Manifest => 1,
        EntrypointId::Capabilities => 2,
    };
    assert(spec_entry_order()[k] == e);
    assert(!spec_all_present(names));
    assert(Seq::<WarningModel>::empty().push(
        WarningModel::Downgraded(spec_first_missing(names)),
    ) =~= seq![WarningModel::Downgraded(spec_first_missing(names))]);
}

} // verus!
