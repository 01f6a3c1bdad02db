//! Import auditor: enumerates the module-level imports of a core module and
//! classifies each namespace against the trusted-namespace allowlist.
//!
//! The audit is advisory: an untrusted import produces a warning record and
//! never aborts the pipeline, since a host may legitimately supply custom
//! functions this pipeline does not know.

use vstd::prelude::*;
use crate::errors::{ErrorModel, MalformedKind, PipelineError, Warning, WarningModel};
use crate::policy::{spec_ns_trusted, TrustedNamespacePolicy};
use crate::scanner::{scan_sections, sec_body, spec_leb_u32, spec_scan, SecInfo};
use crate::errors::warn_views;
use crate::util::sub_vec;

verus! {

/// One module-level import: the namespace it comes from and the imported
/// field.
pub struct ImportDescriptor {
    pub namespace: Vec<u8>,
    pub field: Vec<u8>,
}

impl ImportDescriptor {
    /// The import as a pair of byte sequences.
    pub open spec fn model(&self) -> (Seq<u8>, Seq<u8>) {
        (self.namespace@, self.field@)
    }
}

/// A length-prefixed name at `pos`: its bytes and the position after it.
pub open spec fn spec_parse_name(p: Seq<u8>, pos: int) -> Option<(Seq<u8>, int)> {
    match spec_leb_u32(p, pos, 0) {
        Some((len, n)) => if pos + n + len <= p.len() {
            Some((p.subrange(pos + n, pos + n + len), pos + n + len))
        } else {
            None
        },
        None => None,
    }
}

/// Table or memory limits at `pos`: the position after them.
pub open spec fn spec_parse_limits(p: Seq<u8>, pos: int) -> Option<int> {
    if 0 <= pos < p.len() {
        let flag = p[pos];
        if flag == 0x00 {
            match spec_leb_u32(p, pos + 1, 0) {
                Some((mn, n)) => Some(pos + 1 + n),
                None => None,
            }
        } else if flag == 0x01 {
            match spec_leb_u32(p, pos + 1, 0) {
                Some((mn, n1)) => match spec_leb_u32(p, pos + 1 + n1, 0) {
                    Some((mx, n2)) => Some(pos + 1 + n1 + n2),
                    None => None,
                },
                None => None,
            }
        } else {
            None
        }
    } else {
        None
    }
}

/// An import description at `pos`: the position after it. Only the layout
/// is walked; the described types are not validated.
pub open spec fn spec_parse_desc(p: Seq<u8>, pos: int) -> Option<int> {
    if 0 <= pos < p.len() {
        let tag = p[pos];
        if tag == 0x00 {
            match spec_leb_u32(p, pos + 1, 0) {
                Some((ix, n)) => Some(pos + 1 + n),
                None => None,
            }
        } else if tag == 0x01 {
            if pos + 1 < p.len() {
                spec_parse_limits(p, pos + 2)
            } else {
                None
            }
        } else if tag == 0x02 {
            spec_parse_limits(p, pos + 1)
        } else if tag == 0x03 {
            if pos + 3 <= p.len() {
                Some(pos + 3)
            } else {
                None
            }
        } else if tag == 0x04 {
            if pos + 1 < p.len() {
                match spec_leb_u32(p, pos + 2, 0) {
                    Some((ix, n)) => Some(pos + 2 + n),
                    None => None,
                }
            } else {
                None
            }
        } else {
            None
        }
    } else {
        None
    }
}

/// `count` imports read from `pos`; the body must be consumed exactly.
pub open spec fn spec_parse_imports(p: Seq<u8>, pos: int, count: nat) -> Option<
    Seq<(Seq<u8>, Seq<u8>)>,
>
    decreases count,
{
    if count == 0 {
        if pos == p.len() {
            Some(Seq::empty())
        } else {
            None
        }
    } else {
        match spec_parse_name(p, pos) {
            Some((ns, pos1)) => match spec_parse_name(p, pos1) {
                Some((fld, pos2)) => match spec_parse_desc(p, pos2) {
                    Some(pos3) => match spec_parse_imports(p, pos3, (count - 1) as nat) {
                        Some(rest) => Some(seq![(ns, fld)] + rest),
                        None => None,
                    },
                    None => None,
                },
                None => None,
            },
            None => None,
        }
    }
}

/// The imports of one import-section body: an entry count followed by that
/// many entries.
pub open spec fn spec_section_imports(body: Seq<u8>) -> Option<Seq<(Seq<u8>, Seq<u8>)>> {
    match spec_leb_u32(body, 0, 0) {
        Some((count, n)) => spec_parse_imports(body, n, count as nat),
        None => None,
    }
}

/// The imports of every import section of the binary, in file order, or
/// `None` when one of them cannot be read.
pub open spec fn spec_imports(b: Seq<u8>, secs: Seq<SecInfo>) -> Option<Seq<(Seq<u8>, Seq<u8>)>>
    decreases secs.len(),
{
    if secs.len() == 0 {
        Some(Seq::empty())
    } else {
        match spec_imports(b, secs.drop_last()) {
            Some(fore) => if secs.last().id == 2 {
                match spec_section_imports(sec_body(b, secs.last())) {
                    Some(tail) => Some(fore + tail),
                    None => None,
                }
            } else {
                Some(fore)
            },
            None => None,
        }
    }
}

/// One untrusted-import warning per import whose namespace matches no
/// trusted prefix, in order.
pub open spec fn untrusted_models(
    prefixes: Seq<Seq<u8>>,
    imports: Seq<(Seq<u8>, Seq<u8>)>,
) -> Seq<WarningModel>
    decreases imports.len(),
{
    if imports.len() == 0 {
        Seq::empty()
    } else {
        untrusted_models(prefixes, imports.drop_last()) + (if !spec_ns_trusted(
            prefixes,
            imports.last().0,
        ) {
            seq![WarningModel::Untrusted(imports.last().0, imports.last().1)]
        } else {
            Seq::empty()
        })
    }
}

/// Once some prefix of the sections fails the import walk, the whole list
/// does.
proof fn lemma_imports_prefix_none(b: Seq<u8>, secs: Seq<SecInfo>, j: int)
    requires
        0 <= j <= secs.len(),
        spec_imports(b, secs.take(j)) is None,
    ensures
        spec_imports(b, secs) is None,
    decreases secs.len() - j,
{
    if j == secs.len() {
        assert(secs.take(j) =~= secs);
    } else {
        assert(secs.take(j + 1).drop_last() =~= secs.take(j));
        assert(spec_imports(b, secs.take(j + 1)) is None);
        lemma_imports_prefix_none(b, secs, j + 1);
    }
}

/// Reads one length-prefixed name.
fn parse_name_at(p: &[u8], pos: usize) -> (r: Option<(Vec<u8>, usize)>)
    ensures
        match r {
            Some(t) => spec_parse_name(p@, pos as int) == Some((t.0@, t.1 as int)) && pos <= t.1
                <= p@.len(),
            None => spec_parse_name(p@, pos as int) is None,
        },
{
    match crate::scanner::leb_u32_from(p, pos, 0) {
        Some((len, n)) => {
            if (len as usize) > p.len() - (pos + n) {
                return None;
            }
            let next = pos + n + (len as usize);
            let nm = sub_vec(p, pos + n, next);
            Some((nm, next))
        },
        None => None,
    }
}

/// Walks one limits record.
fn parse_limits_at(p: &[u8], pos: usize) -> (r: Option<usize>)
    ensures
        match r {
            Some(next) => spec_parse_limits(p@, pos as int) == Some(next as int) && pos < next
                <= p@.len(),
            None => spec_parse_limits(p@, pos as int) is None,
        },
{
    if pos >= p.len() {
        return None;
    }
    let flag = p[pos];
    if flag == 0x00 {
        match crate::scanner::leb_u32_from(p, pos + 1, 0) {
            Some((mn, n)) => Some(pos + 1 + n),
            None => None,
        }
    } else if flag == 0x01 {
        match crate::scanner::leb_u32_from(p, pos + 1, 0) {
            Some((mn, n1)) => match crate::scanner::leb_u32_from(p, pos + 1 + n1, 0) {
                Some((mx, n2)) => Some(pos + 1 + n1 + n2),
                None => None,
            },
            None => None,
        }
    } else {
        None
    }
}

/// Walks one import description.
fn parse_desc_at(p: &[u8], pos: usize) -> (r: Option<usize>)
    ensures
        match r {
            Some(next) => spec_parse_desc(p@, pos as int) == Some(next as int) && pos < next
                <= p@.len(),
            None => spec_parse_desc(p@, pos as int) is None,
        },
{
    if pos >= p.len() {
        return None;
    }
    let tag = p[pos];
    if tag == 0x00 {
        match crate::scanner::leb_u32_from(p, pos + 1, 0) {
            Some((ix, n)) => Some(pos + 1 + n),
            None => None,
        }
    } else if tag == 0x01 {
        if p.len() - pos >= 2 {
            parse_limits_at(p, pos + 2)
        } else {
            None
        }
    } else if tag == 0x02 {
        parse_limits_at(p, pos + 1)
    } else if tag == 0x03 {
        if p.len() - pos >= 3 {
            Some(pos + 3)
        } else {
            None
        }
    } else if tag == 0x04 {
        if p.len() - pos >= 2 {
            match crate::scanner::leb_u32_from(p, pos + 2, 0) {
                Some((ix, n)) => Some(pos + 2 + n),
                None => None,
            }
        } else {
            None
        }
    } else {
        None
    }
}

/// Reads the imports of one import-section body.
fn parse_import_body(body: &[u8]) -> (r: Option<Vec<ImportDescriptor>>)
    ensures
        match r {
            Some(v) => spec_section_imports(body@) == Some(
                v@.map_values(|d: ImportDescriptor| d.model()),
            ),
            None => spec_section_imports(body@) is None,
        },
{
    let (count, n) = match crate::scanner::leb_u32_from(body, 0, 0) {
        Some(t) => t,
        None => {
            return None;
        },
    };
    let mut out: Vec<ImportDescriptor> = Vec::new();
    let mut pos: usize = n;
    let mut remaining: u32 = count;
    proof {
        assert(out@.map_values(|d: ImportDescriptor| d.model()) =~= Seq::<
            (Seq<u8>, Seq<u8>),
        >::empty());
    }
    loop
        invariant
            pos <= body@.len(),
            remaining <= count,
            spec_leb_u32(body@, 0, 0) == Some((count, n as int)),
            match spec_parse_imports(body@, pos as int, remaining as nat) {
                Some(rest) => spec_parse_imports(body@, n as int, count as nat) == Some(
                    out@.map_values(|d: ImportDescriptor| d.model()) + rest,
                ),
                None => spec_parse_imports(body@, n as int, count as nat) is None,
            },
        decreases remaining,
    {
        if remaining == 0 {
            if pos == body.len() {
                proof {
                    assert(spec_parse_imports(body@, pos as int, 0) == Some(Seq::<
                        (Seq<u8>, Seq<u8>),
                    >::empty()));
                    assert(out@.map_values(|d: ImportDescriptor| d.model()) + Seq::<
                        (Seq<u8>, Seq<u8>),
                    >::empty() =~= out@.map_values(|d: ImportDescriptor| d.model()));
                }
                return Some(out);
            }
            return None;
        }
        let (namespace, pos1) = match parse_name_at(body, pos) {
            Some(t) => t,
            None => {
                return None;
            },
        };
        let (field, pos2) = match parse_name_at(body, pos1) {
            Some(t) => t,
            None => {
                return None;
            },
        };
        let pos3 = match parse_desc_at(body, pos2) {
            Some(t) => t,
            None => {
                return None;
            },
        };
        let ghost pre = out@.map_values(|d: ImportDescriptor| d.model());
        let ghost entry = (namespace@, field@);
        out.push(ImportDescriptor { namespace, field });
        proof {
            assert(out@.map_values(|d: ImportDescriptor| d.model()) =~= pre.push(entry));
            assert(spec_parse_imports(body@, pos as int, remaining as nat) == (
            match spec_parse_imports(body@, pos3 as int, (remaining - 1) as nat) {
                Some(rest) => Some(seq![entry] + rest),
                None => None,
            }));
            if spec_parse_imports(body@, pos3 as int, (remaining - 1) as nat) is Some {
                let rest = spec_parse_imports(body@, pos3 as int, (remaining - 1) as nat)->Some_0;
                assert(pre + (seq![entry] + rest) =~= pre.push(entry) + rest);
            }
        }
        pos = pos3;
        remaining = remaining - 1;
    }
}

/// Enumerates the imports of a core module and reports, in order, one
/// warning per import whose namespace the policy does not trust. Never
/// fails on untrusted imports; fails only on a structural fault.
pub fn audit_imports(module: &[u8], policy: &TrustedNamespacePolicy) -> (r: Result<
    Vec<Warning>,
    PipelineError,
>)
    ensures
        match r {
            Ok(ws) => {
                &&& spec_scan(module@) is Some
                &&& spec_imports(module@, spec_scan(module@)->Some_0) is Some
                &&& warn_views(ws@) == untrusted_models(
                    policy.model(),
                    spec_imports(module@, spec_scan(module@)->Some_0)->Some_0,
                )
            },
            Err(e) => {
                &&& (spec_scan(module@) is None || spec_imports(
                    module@,
                    spec_scan(module@)->Some_0,
                ) is None)
                &&& e@ == ErrorModel::Malformed(
                    if module@.len() < 8 {
                        MalformedKind::Header
                    } else {
                        MalformedKind::Sections
                    },
                )
            },
        },
{
    let secs = match scan_sections(module) {
        Ok(v) => v,
        Err(e) => {
            return Err(e);
        },
    };
    let ghost gsecs = spec_scan(module@)->Some_0;
    proof {
        crate::scanner::lemma_scan_from_bounds(module@, 8);
    }
    let mut imports: Vec<ImportDescriptor> = Vec::new();
    let mut i: usize = 0;
    proof {
        assert(gsecs.take(0) =~= Seq::<SecInfo>::empty());
        assert(imports@.map_values(|d: ImportDescriptor| d.model()) =~= Seq::<
            (Seq<u8>, Seq<u8>),
        >::empty());
    }
    while i < secs.len()
        invariant
            0 <= i <= secs@.len(),
            secs@.map_values(|d: crate::scanner::SectionDesc| d.model()) == gsecs,
            spec_scan(module@) == Some(gsecs),
            module@.len() >= 8,
            forall|j: int|
                0 <= j < gsecs.len() ==> {
                    &&& 8 <= (#[trigger] gsecs[j]).start
                    &&& gsecs[j].start + 2 <= gsecs[j].body_start
                    &&& gsecs[j].body_start <= gsecs[j].end <= module@.len()
                },
            spec_imports(module@, gsecs.take(i as int)) == Some(
                imports@.map_values(|d: ImportDescriptor| d.model()),
            ),
        decreases secs@.len() - i,
    {
        let sec = secs[i];
        let ghost gi = i as int;
        proof {
            assert(sec.model() == gsecs[gi]);
            assert(gsecs.take(gi + 1).drop_last() =~= gsecs.take(gi));
            assert(gsecs.take(gi + 1).last() == gsecs[gi]);
        }
        if sec.id == 2 {
            let body = sub_vec(module, sec.body_start, sec.end);
            proof {
                assert(body@ == sec_body(module@, gsecs[gi]));
            }
            match parse_import_body(body.as_slice()) {
                None => {
                    proof {
                        assert(spec_imports(module@, gsecs.take(gi + 1)) is None);
                        lemma_imports_prefix_none(module@, gsecs, gi + 1);
                    }
                    return Err(PipelineError::MalformedBinary { fault: MalformedKind::Sections });
                },
                Some(mut v) => {
                    let ghost pre = imports@.map_values(|d: ImportDescriptor| d.model());
                    let ghost tail = v@.map_values(|d: ImportDescriptor| d.model());
                    imports.append(&mut v);
                    proof {
                        assert(imports@.map_values(|d: ImportDescriptor| d.model()) =~= pre
                            + tail) by {
                            assert forall|k: int|
                                0 <= k < imports@.len() implies imports@.map_values(
                                |d: ImportDescriptor| d.model(),
                            )[k] == (pre + tail)[k] by {}
                        }
                        assert(spec_imports(module@, gsecs.take(gi + 1)) == Some(pre + tail));
                    }
                },
            }
        } else {
            proof {
                assert(spec_imports(module@, gsecs.take(gi + 1)) == Some(
                    imports@.map_values(|d: ImportDescriptor| d.model()),
                ));
            }
        }
        i = i + 1;
    }
    proof {
        assert(gsecs.take(gsecs.len() as int) =~= gsecs);
    }
    let ghost all = imports@.map_values(|d: ImportDescriptor| d.model());
    let mut warns: Vec<Warning> = Vec::new();
    let mut k: usize = 0;
    proof {
        assert(all.take(0) =~= Seq::<(Seq<u8>, Seq<u8>)>::empty());
        assert(warn_views(warns@) =~= untrusted_models(policy.model(), all.take(0)));
    }
    while k < imports.len()
        invariant
            0 <= k <= imports@.len(),
            imports@.map_values(|d: ImportDescriptor| d.model()) == all,
            spec_scan(module@) is Some,
            spec_imports(module@, spec_scan(module@)->Some_0) == Some(all),
            warn_views(warns@) == untrusted_models(policy.model(), all.take(k as int)),
        decreases imports@.len() - k,
    {
        let ghost gk = k as int;
        let ghost warns_pre = warns@;
        let trusted = policy.is_trusted(imports[k].namespace.as_slice());
        proof {
            assert(all.take(gk + 1).drop_last() =~= all.take(gk));
            assert(all.take(gk + 1).last() == all[gk]);
            assert(all[gk] == imports@[gk].model());
        }
        if !trusted {
            let namespace = sub_vec(imports[k].namespace.as_slice(), 0, imports[k].namespace.len());
            let field = sub_vec(imports[k].field.as_slice(), 0, imports[k].field.len());
            proof {
                assert(namespace@ =~= all[gk].0);
                assert(field@ =~= all[gk].1);
            }
            warns.push(Warning::UntrustedImport { namespace, field });
            proof {
                let prev = untrusted_models(policy.model(), all.take(gk));
                assert(warns@.last()@ == WarningModel::Untrusted(all[gk].0, all[gk].1));
                assert(warns@ == warns_pre.push(warns@.last()));
                assert(warn_views(warns_pre).len() == prev.len());
                assert forall|t: int|
                    0 <= t < warns@.len() implies warn_views(warns@)[t] == untrusted_models(
                    policy.model(),
                    all.take(gk + 1),
                )[t] by {
                    let cur = untrusted_models(policy.model(), all.take(gk + 1));
                    assert(cur == prev + seq![WarningModel::Untrusted(all[gk].0, all[gk].1)]);
                    if t < warns_pre.len() {
                        assert(warns@[t] == warns_pre[t]);
                        assert(warn_views(warns_pre)[t] == prev[t]);
                        assert(cur[t] == prev[t]);
                    } else {
                        assert(warns@[t] == warns@.last());
                        assert(cur[t] == WarningModel::Untrusted(all[gk].0, all[gk].1));
                    }
                }
                assert(warn_views(warns@) =~= untrusted_models(
                    policy.model(),
                    all.take(gk + 1),
                ));
            }
        } else {
            proof {
                assert(untrusted_models(policy.model(), all.take(gk + 1)) =~= untrusted_models(
                    policy.model(),
                    all.take(gk),
                ));
            }
        }
        k = k + 1;
    }
    proof {
        assert(all.take(all.len() as int) =~= all);
    }
    Ok(warns)
}

} // verus!
