//! Static packaging policy: the legacy-metadata section names the stripper
//! removes, the namespace prefixes the import auditor trusts, and the
//! entrypoint aliases the export contract demands.

use vstd::prelude::*;
use vstd::string::StringSliceAdditionalSpecFns;
use vstd::slice::slice_to_vec;
use crate::errors::EntrypointId;
use crate::util::bytes_eq;

verus! {

/// Name prefix of the legacy toolchain metadata sections.
pub open spec fn spec_legacy_prefix() -> Seq<u8> {
    "component-type:wit-bindgen:".spec_bytes()
}

/// Marker substring that qualifies a legacy section for removal.
pub open spec fn spec_legacy_marker() -> Seq<u8> {
    "with-all-of-its-exports-removed".spec_bytes()
}

/// The legacy prefix as bytes.
pub fn legacy_prefix() -> (r: Vec<u8>)
    ensures
        r@ == spec_legacy_prefix(),
{
    slice_to_vec("component-type:wit-bindgen:".as_bytes())
}

/// The legacy marker as bytes.
pub fn legacy_marker() -> (r: Vec<u8>)
    ensures
        r@ == spec_legacy_marker(),
{
    slice_to_vec("with-all-of-its-exports-removed".as_bytes())
}

/// The namespace prefixes considered safe, in policy order: the host ABI
/// namespace, the adapter-owned namespace, the plugin SDK namespace, and the
/// toolchain-intrinsic namespace.
pub open spec fn spec_trusted_prefixes() -> Seq<Seq<u8>> {
    seq![
        "wasi_snapshot_preview1".spec_bytes(),
        "wasi:".spec_bytes(),
        "vtx:".spec_bytes(),
        "env".spec_bytes(),
    ]
}

/// A namespace is trusted when some prefix of the policy is an exact,
/// case-sensitive prefix of it.
pub open spec fn spec_ns_trusted(prefixes: Seq<Seq<u8>>, ns: Seq<u8>) -> bool {
    exists|i: int| 0 <= i < prefixes.len() && (#[trigger] prefixes[i]).is_prefix_of(ns)
}

/// The trusted-namespace allowlist, built once and passed into the import
/// auditor.
pub struct TrustedNamespacePolicy {
    pub prefixes: Vec<Vec<u8>>,
}

impl TrustedNamespacePolicy {
    /// The prefixes as a sequence of byte sequences.
    pub open spec fn model(&self) -> Seq<Seq<u8>> {
        self.prefixes@.map_values(|p: Vec<u8>| p@)
    }

    /// The standard allowlist of this pipeline.
    pub fn standard() -> (r: TrustedNamespacePolicy)
        ensures
            r.model() == spec_trusted_prefixes(),
    {
        let mut prefixes: Vec<Vec<u8>> = Vec::new();
        prefixes.push(slice_to_vec("wasi_snapshot_preview1".as_bytes()));
        prefixes.push(slice_to_vec("wasi:".as_bytes()));
        prefixes.push(slice_to_vec("vtx:".as_bytes()));
        prefixes.push(slice_to_vec("env".as_bytes()));
        let r = TrustedNamespacePolicy { prefixes };
        proof {
            assert(r.model() =~= spec_trusted_prefixes());
        }
        r
    }

    /// Tests one namespace against the allowlist.
    pub fn is_trusted(&self, ns: &[u8]) -> (r: bool)
        ensures
            r == spec_ns_trusted(self.model(), ns@),
    {
        let mut i: usize = 0;
        while i < self.prefixes.len()
            invariant
                0 <= i <= self.prefixes@.len(),
                forall|j: int| 0 <= j < i ==> !(#[trigger] self.model()[j]).is_prefix_of(ns@),
            decreases self.prefixes@.len() - i,
        {
            if crate::util::has_prefix(ns, self.prefixes[i].as_slice()) {
                proof {
                    assert(self.model()[i as int].is_prefix_of(ns@));
                }
                return true;
            }
            i = i + 1;
        }
        false
    }
}

/// The acceptable export-name aliases of one logical entrypoint: the plain
/// name, the interface-path form, and the interface-hash form, tolerating
/// naming-scheme drift across encoder versions.
pub open spec fn spec_aliases(e: EntrypointId) -> Seq<Seq<u8>> {
    match e {
        EntrypointId::Handle => seq![
            "handle".spec_bytes(),
            "vtx:api/plugin/handle".spec_bytes(),
            "vtx:api/plugin#handle".spec_bytes(),
        ],
        EntrypointId::Manifest => seq![
            "get-manifest".spec_bytes(),
            "vtx:api/plugin/get-manifest".spec_bytes(),
            "vtx:api/plugin#get-manifest".spec_bytes(),
        ],
        EntrypointId::Capabilities => seq![
            "get-capabilities".spec_bytes(),
            "vtx:api/plugin/get-capabilities".spec_bytes(),
            "vtx:api/plugin#get-capabilities".spec_bytes(),
        ],
    }
}

/// An export name satisfies an entrypoint when it equals one of its aliases.
pub open spec fn spec_name_matches(e: EntrypointId, nm: Seq<u8>) -> bool {
    exists|i: int| 0 <= i < spec_aliases(e).len() && #[trigger] spec_aliases(e)[i] == nm
}

/// An entrypoint is present when some export name matches one of its
/// aliases.
pub open spec fn spec_entry_present(names: Seq<Seq<u8>>, e: EntrypointId) -> bool {
    exists|i: int| 0 <= i < names.len() && spec_name_matches(e, #[trigger] names[i])
}

/// The fixed, deterministic order in which entrypoints are checked.
pub open spec fn spec_entry_order() -> Seq<EntrypointId> {
    seq![EntrypointId::Handle, EntrypointId::Manifest, EntrypointId::Capabilities]
}

/// All required entrypoints are present.
pub open spec fn spec_all_present(names: Seq<Seq<u8>>) -> bool {
    forall|k: int|
        0 <= k < spec_entry_order().len() ==> spec_entry_present(
            names,
            #[trigger] spec_entry_order()[k],
        )
}

/// The first entrypoint, in policy order, that no export name satisfies.
/// Meaningful only when not all are present.
pub open spec fn spec_first_missing(names: Seq<Seq<u8>>) -> EntrypointId {
    if !spec_entry_present(names, EntrypointId::Handle) {
        EntrypointId::Handle
    } else if !spec_entry_present(names, EntrypointId::Manifest) {
        EntrypointId::Manifest
    } else {
        EntrypointId::Capabilities
    }
}

/// One logical entrypoint with its acceptable aliases.
pub struct EntrypointAliases {
    pub id: EntrypointId,
    pub aliases: Vec<Vec<u8>>,
}

/// The required-entrypoint policy, built once and handed to the export
/// contract validator.
pub struct RequiredEntrypointPolicy {
    pub entries: Vec<EntrypointAliases>,
}

impl RequiredEntrypointPolicy {
    /// A policy is standard when it lists the fixed entrypoints in policy
    /// order, each with its alias set.
    pub open spec fn is_standard(&self) -> bool {
        &&& self.entries@.len() == spec_entry_order().len()
        &&& forall|k: int|
            0 <= k < self.entries@.len() ==> (#[trigger] self.entries@[k]).id
                == spec_entry_order()[k] && self.entries@[k].aliases@.map_values(|a: Vec<u8>| a@)
                == spec_aliases(spec_entry_order()[k])
    }

    /// The standard plugin contract of this pipeline.
    pub fn standard() -> (r: RequiredEntrypointPolicy)
        ensures
            r.is_standard(),
    {
        let mut entries: Vec<EntrypointAliases> = Vec::new();
        let mut handle_aliases: Vec<Vec<u8>> = Vec::new();
        handle_aliases.push(slice_to_vec("handle".as_bytes()));
        handle_aliases.push(slice_to_vec("vtx:api/plugin/handle".as_bytes()));
        handle_aliases.push(slice_to_vec("vtx:api/plugin#handle".as_bytes()));
        entries.push(EntrypointAliases { id: EntrypointId::Handle, aliases: handle_aliases });
        let mut manifest_aliases: Vec<Vec<u8>> = Vec::new();
        manifest_aliases.push(slice_to_vec("get-manifest".as_bytes()));
        manifest_aliases.push(slice_to_vec("vtx:api/plugin/get-manifest".as_bytes()));
        manifest_aliases.push(slice_to_vec("vtx:api/plugin#get-manifest".as_bytes()));
        entries.push(EntrypointAliases { id: EntrypointId::Manifest, aliases: manifest_aliases });
        let mut cap_aliases: Vec<Vec<u8>> = Vec::new();
        cap_aliases.push(slice_to_vec("get-capabilities".as_bytes()));
        cap_aliases.push(slice_to_vec("vtx:api/plugin/get-capabilities".as_bytes()));
        cap_aliases.push(slice_to_vec("vtx:api/plugin#get-capabilities".as_bytes()));
        entries.push(
            EntrypointAliases { id: EntrypointId::Capabilities, aliases: cap_aliases },
        );
        let r = RequiredEntrypointPolicy { entries };
        proof {
            assert forall|k: int| 0 <= k < r.entries@.len() implies (#[trigger] r.entries@[k]).id
                == spec_entry_order()[k] && r.entries@[k].aliases@.map_values(|a: Vec<u8>| a@)
                == spec_aliases(spec_entry_order()[k]) by {
                assert(r.entries@[k].aliases@.map_values(|a: Vec<u8>| a@) =~= spec_aliases(
                    spec_entry_order()[k],
                ));
            }
        }
        r
    }
}

/// A policy entry whose alias list is the fixed alias set of its
/// entrypoint.
pub open spec fn entry_standard(entry: &EntrypointAliases) -> bool {
    entry.aliases@.map_values(|a: Vec<u8>| a@) == spec_aliases(entry.id)
}

/// Whether one export name satisfies the entrypoint of `entry`.
fn entry_matches_name(entry: &EntrypointAliases, nm: &[u8]) -> (r: bool)
    requires
        entry_standard(entry),
    ensures
        r == spec_name_matches(entry.id, nm@),
{
    let mut i: usize = 0;
    while i < entry.aliases.len()
        invariant
            entry_standard(entry),
            0 <= i <= entry.aliases@.len(),
            forall|j: int| 0 <= j < i ==> #[trigger] spec_aliases(entry.id)[j] != nm@,
        decreases entry.aliases@.len() - i,
    {
        if bytes_eq(entry.aliases[i].as_slice(), nm) {
            proof {
                assert(spec_aliases(entry.id)[i as int] == entry.aliases@.map_values(
                    |a: Vec<u8>| a@,
                )[i as int]);
                assert(spec_name_matches(entry.id, nm@));
            }
            return true;
        }
        proof {
            assert(spec_aliases(entry.id)[i as int] == entry.aliases@.map_values(
                |a: Vec<u8>| a@,
            )[i as int]);
        }
        i = i + 1;
    }
    false
}

/// Whether some export name satisfies the entrypoint of `entry`.
pub fn entry_present(entry: &EntrypointAliases, names: &Vec<Vec<u8>>) -> (r: bool)
    requires
        entry_standard(entry),
    ensures
        r == spec_entry_present(names@.map_values(|nm: Vec<u8>| nm@), entry.id),
{
    let ghost models = names@.map_values(|nm: Vec<u8>| nm@);
    let mut i: usize = 0;
    while i < names.len()
        invariant
            entry_standard(entry),
            models == names@.map_values(|nm: Vec<u8>| nm@),
            0 <= i <= names@.len(),
            forall|k: int| 0 <= k < i ==> !spec_name_matches(entry.id, #[trigger] models[k]),
        decreases names@.len() - i,
    {
        if entry_matches_name(entry, names[i].as_slice()) {
            proof {
                assert(models[i as int] == names@[i as int]@);
                assert(spec_entry_present(models, entry.id));
            }
            return true;
        }
        proof {
            assert(models[i as int] == names@[i as int]@);
        }
        i = i + 1;
    }
    false
}

} // verus!
