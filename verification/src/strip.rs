//! Metadata stripper: removes the legacy toolchain custom sections from a
//! core module while copying every other section byte-for-byte, in order.
//!
//! A custom section qualifies for removal when its name starts with the
//! legacy prefix and contains the marker substring. A custom section that
//! shares the prefix but not the marker is preserved and reported as
//! unhandled rather than silently dropped or silently kept.

use vstd::prelude::*;
use crate::errors::{warn_views, ErrorModel, MalformedKind, PipelineError, Warning, WarningModel};
use crate::policy::{legacy_marker, legacy_prefix, spec_legacy_marker, spec_legacy_prefix};
use crate::scanner::{
    concat_blocks, scan_sections, sec_body, sec_raw, spec_leb_u32, spec_scan, SecInfo,
    leb_u32_from,
};
use crate::util::{contains_seq, contains_sub, has_prefix, push_range, sub_vec};

verus! {

/// The name carried by a custom section body: an LEB length followed by
/// that many name bytes.
pub open spec fn spec_custom_name(body: Seq<u8>) -> Option<Seq<u8>> {
    match spec_leb_u32(body, 0, 0) {
        Some((len, n)) => if n + len <= body.len() {
            Some(body.subrange(n, n + len))
        } else {
            None
        },
        None => None,
    }
}

/// A name that marks a removable legacy metadata section.
pub open spec fn spec_qualifies(name: Seq<u8>) -> bool {
    spec_legacy_prefix().is_prefix_of(name) && contains_seq(name, spec_legacy_marker())
}

/// A name that shares the legacy prefix but lacks the marker.
pub open spec fn spec_unhandled(name: Seq<u8>) -> bool {
    spec_legacy_prefix().is_prefix_of(name) && !contains_seq(name, spec_legacy_marker())
}

/// The stripper keeps every section but the qualifying customs.
pub open spec fn spec_keep(b: Seq<u8>, s: SecInfo) -> bool {
    !(s.id == 0 && match spec_custom_name(sec_body(b, s)) {
        Some(nm) => spec_qualifies(nm),
        None => false,
    })
}

/// Every custom section among `secs` carries a readable name.
pub open spec fn spec_names_ok(b: Seq<u8>, secs: Seq<SecInfo>) -> bool {
    forall|i: int|
        0 <= i < secs.len() && (#[trigger] secs[i]).id == 0 ==> spec_custom_name(
            sec_body(b, secs[i]),
        ) is Some
}

/// The stripper succeeds exactly when the structural walk does and every
/// custom section's name can be read.
pub open spec fn spec_strippable(b: Seq<u8>) -> bool {
    &&& spec_scan(b) is Some
    &&& spec_names_ok(b, spec_scan(b)->Some_0)
}

/// The raw images of the sections the stripper keeps, in order.
pub open spec fn kept_raws(b: Seq<u8>, secs: Seq<SecInfo>) -> Seq<Seq<u8>>
    decreases secs.len(),
{
    if secs.len() == 0 {
        Seq::empty()
    } else {
        kept_raws(b, secs.drop_last()) + (if spec_keep(b, secs.last()) {
            seq![sec_raw(b, secs.last())]
        } else {
            Seq::empty()
        })
    }
}

/// The names the stripper reports as unhandled, in order.
pub open spec fn unhandled_names(b: Seq<u8>, secs: Seq<SecInfo>) -> Seq<Seq<u8>>
    decreases secs.len(),
{
    if secs.len() == 0 {
        Seq::empty()
    } else {
        unhandled_names(b, secs.drop_last()) + (if secs.last().id == 0 {
            match spec_custom_name(sec_body(b, secs.last())) {
                Some(nm) => if spec_unhandled(nm) {
                    seq![nm]
                } else {
                    Seq::empty()
                },
                None => Seq::empty(),
            }
        } else {
            Seq::empty()
        })
    }
}

/// The stripped binary: the 8-byte header followed by the kept sections'
/// raw bytes.
pub open spec fn spec_strip(b: Seq<u8>) -> Seq<u8> {
    b.subrange(0, 8) + concat_blocks(kept_raws(b, spec_scan(b)->Some_0))
}

/// Unhandled-metadata warning models for a list of names.
pub open spec fn unhandled_models(ns: Seq<Seq<u8>>) -> Seq<WarningModel> {
    ns.map_values(|nm: Seq<u8>| WarningModel::Unhandled(nm))
}

/// Laying one more image at the end of a concatenation appends its bytes.
pub proof fn lemma_concat_blocks_snoc(bs: Seq<Seq<u8>>, r: Seq<u8>)
    ensures
        concat_blocks(bs.push(r)) == concat_blocks(bs) + r,
    decreases bs.len(),
{
    if bs.len() == 0 {
        assert(bs.push(r).drop_first() =~= Seq::<Seq<u8>>::empty());
        assert(bs.push(r)[0] == r);
        assert(concat_blocks(Seq::<Seq<u8>>::empty()) == Seq::<u8>::empty());
        assert(concat_blocks(bs.push(r)) =~= r);
        assert(concat_blocks(bs) + r =~= r);
    } else {
        assert(bs.push(r).drop_first() =~= bs.drop_first().push(r));
        assert(bs.push(r)[0] == bs[0]);
        lemma_concat_blocks_snoc(bs.drop_first(), r);
        assert(concat_blocks(bs.push(r)) == bs[0] + (concat_blocks(bs.drop_first()) + r));
        assert(bs[0] + (concat_blocks(bs.drop_first()) + r) =~= (bs[0] + concat_blocks(
            bs.drop_first(),
        )) + r);
    }
}

/// A section image the stripper would keep: well formed, and when custom,
/// its name is readable and does not qualify for removal.
pub open spec fn kept_block(r: Seq<u8>) -> bool {
    &&& crate::scanner::wf_block(r)
    &&& (r[0] == 0 ==> spec_custom_name(crate::scanner::block_body(r)) is Some
        && !spec_qualifies(spec_custom_name(crate::scanner::block_body(r))->Some_0))
}

/// Every image in `kept_raws` is a kept block.
pub proof fn lemma_kept_raws_blocks(b: Seq<u8>, secs: Seq<SecInfo>)
    requires
        forall|j: int|
            0 <= j < secs.len() ==> crate::scanner::spec_parse_section(
                b,
                (#[trigger] secs[j]).start,
            ) == Some(secs[j]),
        spec_names_ok(b, secs),
    ensures
        forall|j: int|
            0 <= j < kept_raws(b, secs).len() ==> kept_block(#[trigger] kept_raws(b, secs)[j]),
    decreases secs.len(),
{
    if secs.len() == 0 {
    } else {
        let fore = secs.drop_last();
        assert forall|j: int| 0 <= j < fore.len() implies crate::scanner::spec_parse_section(
            b,
            (#[trigger] fore[j]).start,
        ) == Some(fore[j]) by {
            assert(secs[j] == fore[j]);
        }
        assert forall|j: int|
            0 <= j < fore.len() && (#[trigger] fore[j]).id == 0 implies spec_custom_name(
            sec_body(b, fore[j]),
        ) is Some by {
            assert(secs[j] == fore[j]);
        }
        lemma_kept_raws_blocks(b, fore);
        let ks = kept_raws(b, secs);
        let pre = kept_raws(b, fore);
        let s = secs.last();
        assert(crate::scanner::spec_parse_section(b, s.start) == Some(s));
        crate::scanner::lemma_parse_section_block(b, s.start);
        assert forall|j: int| 0 <= j < ks.len() implies kept_block(#[trigger] ks[j]) by {
            if j < pre.len() {
                assert(ks[j] == pre[j]);
            } else {
                assert(spec_keep(b, s));
                assert(ks[j] == sec_raw(b, s));
                assert(crate::scanner::block_body(sec_raw(b, s)) == sec_body(b, s));
                if s.id == 0 {
                    assert(spec_custom_name(sec_body(b, s)) is Some);
                }
            }
        }
    }
}

/// When every section is kept, the kept images are exactly the sections'
/// raw bytes.
pub proof fn lemma_kept_raws_all(b: Seq<u8>, secs: Seq<SecInfo>)
    requires
        forall|j: int| 0 <= j < secs.len() ==> spec_keep(b, #[trigger] secs[j]),
    ensures
        kept_raws(b, secs) == secs.map_values(|s: SecInfo| sec_raw(b, s)),
    decreases secs.len(),
{
    if secs.len() == 0 {
        assert(kept_raws(b, secs) =~= secs.map_values(|s: SecInfo| sec_raw(b, s)));
    } else {
        let fore = secs.drop_last();
        assert forall|j: int| 0 <= j < fore.len() implies spec_keep(b, #[trigger] fore[j]) by {
            assert(secs[j] == fore[j]);
        }
        lemma_kept_raws_all(b, fore);
        assert(spec_keep(b, secs.last()));
        assert(kept_raws(b, secs) =~= secs.map_values(|s: SecInfo| sec_raw(b, s)));
    }
}

/// Scanning a stripped binary yields one section per kept image, with the
/// same bytes.
pub proof fn lemma_strip_scan(b: Seq<u8>)
    requires
        spec_strippable(b),
    ensures
        ({
            let secs = spec_scan(b)->Some_0;
            let ks = kept_raws(b, secs);
            let sb = spec_strip(b);
            &&& sb.len() >= 8
            &&& sb.subrange(0, 8) == b.subrange(0, 8)
            &&& spec_scan(sb) is Some
            &&& spec_scan(sb)->Some_0.len() == ks.len()
            &&& forall|j: int|
                0 <= j < ks.len() ==> {
                    &&& sec_raw(sb, #[trigger] spec_scan(sb)->Some_0[j]) == ks[j]
                    &&& sec_body(sb, spec_scan(sb)->Some_0[j]) == crate::scanner::block_body(
                        ks[j],
                    )
                    &&& spec_scan(sb)->Some_0[j].id == ks[j][0]
                }
        }),
{
    let secs = spec_scan(b)->Some_0;
    let ks = kept_raws(b, secs);
    let sb = spec_strip(b);
    crate::scanner::lemma_scan_from_bounds(b, 8);
    lemma_kept_raws_blocks(b, secs);
    assert(sb.len() == 8 + concat_blocks(ks).len());
    assert(sb.subrange(0, 8) =~= b.subrange(0, 8));
    assert(sb.subrange(8, sb.len() as int) =~= concat_blocks(ks));
    crate::scanner::lemma_scan_blocks(sb, 8, ks);
}

/// Idempotence of stripping: stripping a stripped binary changes nothing.
pub proof fn lemma_strip_idempotent(b: Seq<u8>)
    requires
        spec_strippable(b),
    ensures
        spec_strippable(spec_strip(b)),
        spec_strip(spec_strip(b)) == spec_strip(b),
{
    let secs = spec_scan(b)->Some_0;
    let ks = kept_raws(b, secs);
    let sb = spec_strip(b);
    crate::scanner::lemma_scan_from_bounds(b, 8);
    lemma_kept_raws_blocks(b, secs);
    lemma_strip_scan(b);
    let secs2 = spec_scan(sb)->Some_0;
    assert forall|j: int|
        0 <= j < secs2.len() && (#[trigger] secs2[j]).id == 0 implies spec_custom_name(
        sec_body(sb, secs2[j]),
    ) is Some by {
        assert(kept_block(ks[j]));
    }
    assert(spec_strippable(sb));
    assert forall|j: int| 0 <= j < secs2.len() implies spec_keep(sb, #[trigger] secs2[j]) by {
        assert(kept_block(ks[j]));
        assert(sec_body(sb, secs2[j]) == crate::scanner::block_body(ks[j]));
    }
    lemma_kept_raws_all(sb, secs2);
    assert forall|j: int| 0 <= j < secs2.len() implies secs2.map_values(
        |s: SecInfo| sec_raw(sb, s),
    )[j] == ks[j] by {
        assert(sec_raw(sb, secs2[j]) == ks[j]);
    }
    assert(kept_raws(sb, secs2) =~= ks);
    assert(spec_strip(sb) == sb.subrange(0, 8) + concat_blocks(ks));
    assert(sb =~= sb.subrange(0, 8) + concat_blocks(ks));
}

/// How many sections are custom sections.
pub open spec fn count_customs(secs: Seq<SecInfo>) -> int
    decreases secs.len(),
{
    if secs.len() == 0 {
        0
    } else {
        count_customs(secs.drop_last()) + if secs.last().id == 0 {
            1int
        } else {
            0int
        }
    }
}

/// How many sections the stripper removes.
pub open spec fn count_stripped(b: Seq<u8>, secs: Seq<SecInfo>) -> int
    decreases secs.len(),
{
    if secs.len() == 0 {
        0
    } else {
        count_stripped(b, secs.drop_last()) + if !spec_keep(b, secs.last()) {
            1int
        } else {
            0int
        }
    }
}

/// The raw images of the non-custom sections, in order.
pub open spec fn noncustom_raws(b: Seq<u8>, secs: Seq<SecInfo>) -> Seq<Seq<u8>>
    decreases secs.len(),
{
    if secs.len() == 0 {
        Seq::empty()
    } else {
        noncustom_raws(b, secs.drop_last()) + (if secs.last().id != 0 {
            seq![sec_raw(b, secs.last())]
        } else {
            Seq::empty()
        })
    }
}

/// How many images carry the custom-section id.
pub open spec fn count_custom_blocks(ks: Seq<Seq<u8>>) -> int
    decreases ks.len(),
{
    if ks.len() == 0 {
        0
    } else {
        count_custom_blocks(ks.drop_last()) + if ks.last()[0] == 0 {
            1int
        } else {
            0int
        }
    }
}

/// The images that do not carry the custom-section id, in order.
pub open spec fn noncustom_blocks(ks: Seq<Seq<u8>>) -> Seq<Seq<u8>>
    decreases ks.len(),
{
    if ks.len() == 0 {
        Seq::empty()
    } else {
        noncustom_blocks(ks.drop_last()) + (if ks.last()[0] != 0 {
            seq![ks.last()]
        } else {
            Seq::empty()
        })
    }
}

/// What stripping does to the section statistics, counted over the kept
/// images.
proof fn lemma_strip_counts(b: Seq<u8>, secs: Seq<SecInfo>)
    requires
        forall|j: int|
            0 <= j < secs.len() ==> crate::scanner::spec_parse_section(
                b,
                (#[trigger] secs[j]).start,
            ) == Some(secs[j]),
    ensures
        count_custom_blocks(kept_raws(b, secs)) == count_customs(secs) - count_stripped(b, secs),
        noncustom_blocks(kept_raws(b, secs)) == noncustom_raws(b, secs),
        0 <= count_stripped(b, secs) <= count_customs(secs),
    decreases secs.len(),
{
    if secs.len() == 0 {
        assert(noncustom_blocks(kept_raws(b, secs)) =~= noncustom_raws(b, secs));
    } else {
        let fore = secs.drop_last();
        assert forall|j: int| 0 <= j < fore.len() implies crate::scanner::spec_parse_section(
            b,
            (#[trigger] fore[j]).start,
        ) == Some(fore[j]) by {
            assert(secs[j] == fore[j]);
        }
        lemma_strip_counts(b, fore);
        let s = secs.last();
        let r = sec_raw(b, s);
        assert(crate::scanner::spec_parse_section(b, s.start) == Some(s));
        crate::scanner::lemma_parse_section_block(b, s.start);
        assert(r[0] == s.id);
        let pre = kept_raws(b, fore);
        if spec_keep(b, s) {
            assert(kept_raws(b, secs) == pre + seq![r]);
            assert(pre + seq![r] =~= pre.push(r));
            assert(pre.push(r).drop_last() =~= pre);
            assert(count_custom_blocks(pre.push(r)) == count_custom_blocks(pre) + if r[0] == 0 {
                1int
            } else {
                0int
            });
            assert(noncustom_blocks(pre.push(r)) == noncustom_blocks(pre) + (if r[0] != 0 {
                seq![r]
            } else {
                Seq::empty()
            }));
            assert(noncustom_blocks(kept_raws(b, secs)) =~= noncustom_raws(b, secs));
        } else {
            assert(s.id == 0);
            assert(kept_raws(b, secs) == pre + Seq::<Seq<u8>>::empty());
            assert(pre + Seq::<Seq<u8>>::empty() =~= pre);
            assert(noncustom_blocks(kept_raws(b, secs)) =~= noncustom_raws(b, secs));
        }
    }
}

/// Section statistics agree between a scanned binary and the images its
/// sections came from.
proof fn lemma_counts_correspond(b2: Seq<u8>, secs2: Seq<SecInfo>, ks: Seq<Seq<u8>>)
    requires
        secs2.len() == ks.len(),
        forall|j: int|
            0 <= j < ks.len() ==> (#[trigger] secs2[j]).id == ks[j][0] && sec_raw(b2, secs2[j])
                == ks[j],
    ensures
        count_customs(secs2) == count_custom_blocks(ks),
        noncustom_raws(b2, secs2) == noncustom_blocks(ks),
    decreases ks.len(),
{
    if ks.len() == 0 {
        assert(noncustom_raws(b2, secs2) =~= noncustom_blocks(ks));
    } else {
        let fore2 = secs2.drop_last();
        let forek = ks.drop_last();
        assert forall|j: int| 0 <= j < forek.len() implies (#[trigger] fore2[j]).id == forek[j][0]
            && sec_raw(b2, fore2[j]) == forek[j] by {
            assert(secs2[j] == fore2[j]);
            assert(ks[j] == forek[j]);
        }
        lemma_counts_correspond(b2, fore2, forek);
        assert(secs2.last() == secs2[ks.len() - 1]);
        assert(ks.last() == ks[ks.len() - 1]);
        assert(secs2.last().id == ks.last()[0]);
        assert(sec_raw(b2, secs2.last()) == ks.last());
        assert(noncustom_raws(b2, secs2) =~= noncustom_blocks(ks));
    }
}

/// Section-count conservation: stripping removes exactly the qualifying
/// custom sections, and every non-custom section survives byte-identical,
/// in its original order.
pub proof fn lemma_strip_conservation(b: Seq<u8>)
    requires
        spec_strippable(b),
    ensures
        spec_scan(spec_strip(b)) is Some,
        count_customs(spec_scan(spec_strip(b))->Some_0) == count_customs(spec_scan(b)->Some_0)
            - count_stripped(b, spec_scan(b)->Some_0),
        noncustom_raws(spec_strip(b), spec_scan(spec_strip(b))->Some_0) == noncustom_raws(
            b,
            spec_scan(b)->Some_0,
        ),
        0 <= count_stripped(b, spec_scan(b)->Some_0) <= count_customs(spec_scan(b)->Some_0),
{
    let secs = spec_scan(b)->Some_0;
    let ks = kept_raws(b, secs);
    let sb = spec_strip(b);
    crate::scanner::lemma_scan_from_bounds(b, 8);
    lemma_strip_counts(b, secs);
    lemma_strip_scan(b);
    let secs2 = spec_scan(sb)->Some_0;
    lemma_counts_correspond(sb, secs2, ks);
}

/// Removes the legacy toolchain metadata sections of a core module. On
/// success, the first component of the pair is the stripped binary and the
/// second lists one unhandled-metadata warning per preserved look-alike
/// section, in order. When nothing qualifies, the output equals the input.
pub fn strip_exports_removed_bindgen_section(module: &[u8]) -> (r: Result<
    (Vec<u8>, Vec<Warning>),
    PipelineError,
>)
    ensures
        match r {
            Ok(p) => {
                &&& spec_strippable(module@)
                &&& p.0@ == spec_strip(module@)
                &&& warn_views(p.1@) == unhandled_models(
                    unhandled_names(module@, spec_scan(module@)->Some_0),
                )
            },
            Err(e) => {
                &&& !spec_strippable(module@)
                &&& e@ == ErrorModel::Malformed(
                    if module@.len() < 8 {
                        MalformedKind::Header
                    } else {
                        MalformedKind::Sections
                    },
                )
            },
        },
{
    let secs = match scan_sections(module) {
        Ok(v) => v,
        Err(e) => {
            return Err(e);
        },
    };
    let ghost gsecs = spec_scan(module@)->Some_0;
    proof {
        crate::scanner::lemma_scan_from_bounds(module@, 8);
    }
    let prefix = legacy_prefix();
    let marker = legacy_marker();
    let mut out: Vec<u8> = Vec::new();
    push_range(&mut out, module, 0, 8);
    let mut warns: Vec<Warning> = Vec::new();
    let mut i: usize = 0;
    proof {
        assert(gsecs.take(0) =~= Seq::<SecInfo>::empty());
        assert(out@ =~= module@.subrange(0, 8) + concat_blocks(kept_raws(module@, gsecs.take(0))));
        assert(warn_views(warns@) =~= unhandled_models(unhandled_names(module@, gsecs.take(0))));
    }
    while i < secs.len()
        invariant
            0 <= i <= secs@.len(),
            secs@.map_values(|d: crate::scanner::SectionDesc| d.model()) == gsecs,
            spec_scan(module@) == Some(gsecs),
            module@.len() >= 8,
            forall|j: int|
                0 <= j < gsecs.len() ==> {
                    &&& 8 <= (#[trigger] gsecs[j]).start
                    &&& gsecs[j].start + 2 <= gsecs[j].body_start
                    &&& gsecs[j].body_start <= gsecs[j].end <= module@.len()
                },
            spec_names_ok(module@, gsecs.take(i as int)),
            prefix@ == spec_legacy_prefix(),
            marker@ == spec_legacy_marker(),
            out@ == module@.subrange(0, 8) + concat_blocks(kept_raws(module@, gsecs.take(i as int))),
            warn_views(warns@) == unhandled_models(unhandled_names(module@, gsecs.take(i as int))),
        decreases secs@.len() - i,
    {
        let sec = secs[i];
        let ghost warns_pre = warns@;
        let ghost gi = i as int;
        let ghost part = (if gsecs[gi].id == 0 {
            match spec_custom_name(sec_body(module@, gsecs[gi])) {
                Some(nm) => if spec_unhandled(nm) {
                    seq![nm]
                } else {
                    Seq::<Seq<u8>>::empty()
                },
                None => Seq::<Seq<u8>>::empty(),
            }
        } else {
            Seq::<Seq<u8>>::empty()
        });
        proof {
            assert(sec.model() == gsecs[gi]);
        }
        let mut keep = true;
        if sec.id == 0 {
            let body = sub_vec(module, sec.body_start, sec.end);
            proof {
                assert(body@ == sec_body(module@, gsecs[i as int]));
            }
            match leb_u32_from(body.as_slice(), 0, 0) {
                None => {
                    proof {
                        assert(spec_custom_name(sec_body(module@, gsecs[i as int])) is None);
                        assert(!spec_names_ok(module@, gsecs));
                    }
                    return Err(PipelineError::MalformedBinary { fault: MalformedKind::Sections });
                },
                Some((len, n)) => {
                    if (len as usize) > body.len() - n {
                        proof {
                            assert(spec_custom_name(sec_body(module@, gsecs[i as int])) is None);
                            assert(!spec_names_ok(module@, gsecs));
                        }
                        return Err(
                            PipelineError::MalformedBinary { fault: MalformedKind::Sections },
                        );
                    }
                    let name = sub_vec(body.as_slice(), n, n + (len as usize));
                    proof {
                        assert(spec_custom_name(sec_body(module@, gsecs[i as int])) == Some(
                            name@,
                        ));
                    }
                    let has_pfx = has_prefix(name.as_slice(), prefix.as_slice());
                    let has_mark = contains_sub(name.as_slice(), marker.as_slice());
                    if has_pfx && has_mark {
                        keep = false;
                        proof {
                            assert(spec_qualifies(name@));
                            assert(part =~= Seq::<Seq<u8>>::empty());
                        }
                    } else if has_pfx {
                        proof {
                            assert(spec_unhandled(name@));
                            assert(part =~= seq![name@]);
                        }
                        warns.push(Warning::UnhandledMetadata { name });
                        proof {
                            assert(warns@.last()@ == WarningModel::Unhandled(part[0]));
                        }
                    } else {
                        proof {
                            assert(!spec_unhandled(name@) && !spec_qualifies(name@));
                            assert(part =~= Seq::<Seq<u8>>::empty());
                        }
                    }
                },
            }
        } else {
            proof {
                assert(part =~= Seq::<Seq<u8>>::empty());
            }
        }
        if keep {
            push_range(&mut out, module, sec.start, sec.end);
        }
        proof {
            assert(gsecs.take(gi + 1).drop_last() =~= gsecs.take(gi));
            assert(gsecs.take(gi + 1).last() == gsecs[gi]);
            assert(keep == spec_keep(module@, gsecs[gi]));
            if keep {
                assert(kept_raws(module@, gsecs.take(gi + 1)) =~= kept_raws(
                    module@,
                    gsecs.take(gi),
                ).push(sec_raw(module@, gsecs[gi])));
                lemma_concat_blocks_snoc(
                    kept_raws(module@, gsecs.take(gi)),
                    sec_raw(module@, gsecs[gi]),
                );
                assert(out@ =~= module@.subrange(0, 8) + concat_blocks(
                    kept_raws(module@, gsecs.take(gi + 1)),
                ));
            } else {
                assert(kept_raws(module@, gsecs.take(gi + 1)) =~= kept_raws(
                    module@,
                    gsecs.take(gi),
                ));
            }
            assert(unhandled_names(module@, gsecs.take(gi + 1)) == unhandled_names(
                module@,
                gsecs.take(gi),
            ) + part);
            let prev = unhandled_names(module@, gsecs.take(gi));
            assert(warn_views(warns_pre).len() == prev.len());
            if part.len() == 0 {
                assert(warns@ == warns_pre);
                assert(prev + part =~= prev);
            } else {
                assert(part.len() == 1);
                assert(warns@ == warns_pre.push(warns@.last()));
                assert forall|k: int|
                    0 <= k < warns@.len() implies warn_views(warns@)[k] == unhandled_models(
                    prev + part,
                )[k] by {
                    if k < warns_pre.len() {
                        assert(warns@[k] == warns_pre[k]);
                        assert(warn_views(warns_pre)[k] == unhandled_models(prev)[k]);
                        assert((prev + part)[k] == prev[k]);
                    } else {
                        assert(warns@[k] == warns@.last());
                        assert((prev + part)[k] == part[0]);
                    }
                }
                assert(warn_views(warns@) =~= unhandled_models(prev + part));
            }
            assert(warn_views(warns@) =~= unhandled_models(
                unhandled_names(module@, gsecs.take(gi + 1)),
            ));
            assert(spec_names_ok(module@, gsecs.take(gi + 1)));
        }
        i = i + 1;
    }
    proof {
        assert(gsecs.take(gsecs.len() as int) =~= gsecs);
    }
    Ok((out, warns))
}

} // verus!
