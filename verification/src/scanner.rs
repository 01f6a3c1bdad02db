//! Binary section scanner: a linear, single-pass structural walk over the
//! top-level sections of a wasm binary.
//!
//! A binary starts with an 8-byte header (4-byte magic, 4-byte version
//! field); after it, each section is one id byte, an unsigned LEB128 size,
//! and `size` bytes of body. The scanner performs exactly this structural
//! walk and no semantic validation of section contents.

use vstd::prelude::*;
use crate::errors::{MalformedKind, PipelineError};

verus! {

/// The four magic bytes every wasm binary starts with: `\0asm`.
pub open spec fn spec_magic() -> Seq<u8> {
    seq![0x00u8, 0x61u8, 0x73u8, 0x6du8]
}

/// Unsigned LEB128 reading of a `u32` at `pos`, `shift` bits already
/// consumed. Yields the decoded value and the number of bytes read (1 to 5),
/// or `None` when the buffer ends first, the encoding runs past five bytes,
/// or the fifth byte carries bits beyond the 32nd.
pub open spec fn spec_leb_u32(b: Seq<u8>, pos: int, shift: nat) -> Option<(u32, int)>
    decreases 35 - shift,
{
    if pos < 0 || pos >= b.len() || shift > 28 {
        None
    } else {
        let byte = b[pos];
        if shift == 28 {
            if byte >> 4 == 0 {
                Some((((byte as u32) << 28) as u32, 1))
            } else {
                None
            }
        } else if byte & 0x80 == 0 {
            Some((((byte as u32) << shift) as u32, 1))
        } else {
            match spec_leb_u32(b, pos + 1, shift + 7) {
                Some((rest, n)) => Some(
                    (((((byte & 0x7f) as u32) << shift) | rest) as u32, n + 1),
                ),
                None => None,
            }
        }
    }
}

/// A successful LEB read stays within the buffer and takes one to five bytes.
pub proof fn lemma_leb_len(b: Seq<u8>, pos: int, shift: nat)
    requires
        spec_leb_u32(b, pos, shift) is Some,
    ensures
        1 <= spec_leb_u32(b, pos, shift)->Some_0.1,
        pos + spec_leb_u32(b, pos, shift)->Some_0.1 <= b.len(),
    decreases 35 - shift,
{
    let byte = b[pos];
    if shift == 28 || byte & 0x80 == 0 {
    } else {
        lemma_leb_len(b, pos + 1, (shift + 7) as nat);
    }
}

/// An LEB read depends only on the bytes it consumes: a buffer that carries
/// the same bytes at another position reads the same way.
pub proof fn lemma_leb_agree(b1: Seq<u8>, pos1: int, b2: Seq<u8>, pos2: int, shift: nat)
    requires
        spec_leb_u32(b1, pos1, shift) is Some,
        0 <= pos2,
        pos2 + spec_leb_u32(b1, pos1, shift)->Some_0.1 <= b2.len(),
        forall|i: int|
            0 <= i < spec_leb_u32(b1, pos1, shift)->Some_0.1 ==> #[trigger] b2[pos2 + i] == b1[pos1
                + i],
    ensures
        spec_leb_u32(b2, pos2, shift) == spec_leb_u32(b1, pos1, shift),
    decreases 35 - shift,
{
    let byte = b1[pos1];
    lemma_leb_len(b1, pos1, shift);
    assert(b2[pos2 + 0] == b1[pos1 + 0]);
    assert(b2[pos2] == b1[pos1]);
    if shift == 28 || byte & 0x80 == 0 {
    } else {
        lemma_leb_len(b1, pos1 + 1, (shift + 7) as nat);
        let n_rest = spec_leb_u32(b1, pos1 + 1, (shift + 7) as nat)->Some_0.1;
        assert forall|i: int| 0 <= i < n_rest implies #[trigger] b2[pos2 + 1 + i] == b1[pos1 + 1
            + i] by {
            assert(b2[pos2 + (i + 1)] == b1[pos1 + (i + 1)]);
        }
        lemma_leb_agree(b1, pos1 + 1, b2, pos2 + 1, (shift + 7) as nat);
    }
}

/// Executable LEB128 reader, equal to `spec_leb_u32`.
pub fn leb_u32_from(b: &[u8], pos: usize, shift: u32) -> (r: Option<(u32, usize)>)
    requires
        shift == 0 || shift == 7 || shift == 14 || shift == 21 || shift == 28,
    ensures
        match r {
            Some((v, n)) => spec_leb_u32(b@, pos as int, shift as nat) == Some((v, n as int))
                && 1 <= n && pos + n <= b@.len(),
            None => spec_leb_u32(b@, pos as int, shift as nat) is None,
        },
    decreases 35 - shift,
{
    if pos >= b.len() {
        return None;
    }
    let byte = b[pos];
    if shift == 28 {
        if byte >> 4 == 0 {
            Some(((byte as u32) << 28, 1))
        } else {
            None
        }
    } else if byte & 0x80 == 0 {
        Some(((byte as u32) << shift, 1))
    } else {
        match leb_u32_from(b, pos + 1, shift + 7) {
            Some((rest, n)) => Some(((((byte & 0x7f) as u32) << shift) | rest, n + 1)),
            None => None,
        }
    }
}

/// One section of the structural walk, located by byte positions: the id
/// byte sits at `start`, the body covers `body_start` to `end`.
pub struct SecInfo {
    pub id: u8,
    pub start: int,
    pub body_start: int,
    pub end: int,
}

/// The raw bytes of a section, header included.
pub open spec fn sec_raw(b: Seq<u8>, s: SecInfo) -> Seq<u8> {
    b.subrange(s.start, s.end)
}

/// The body bytes of a section.
pub open spec fn sec_body(b: Seq<u8>, s: SecInfo) -> Seq<u8> {
    b.subrange(s.body_start, s.end)
}

/// Reads one section header at `pos`: id byte (high bit clear), LEB size,
/// and a body that must lie within the buffer.
pub open spec fn spec_parse_section(b: Seq<u8>, pos: int) -> Option<SecInfo> {
    if pos < 0 || pos >= b.len() {
        None
    } else {
        let id = b[pos];
        if id & 0x80 != 0 {
            None
        } else {
            match spec_leb_u32(b, pos + 1, 0) {
                Some((size, n)) => {
                    let body_start = pos + 1 + n;
                    let end = body_start + size;
                    if end <= b.len() {
                        Some(SecInfo { id, start: pos, body_start, end })
                    } else {
                        None
                    }
                },
                None => None,
            }
        }
    }
}

/// A parsed section advances the walk and stays in bounds.
pub proof fn lemma_parse_section_bounds(b: Seq<u8>, pos: int)
    requires
        spec_parse_section(b, pos) is Some,
    ensures
        ({
            let s = spec_parse_section(b, pos)->Some_0;
            &&& s.start == pos
            &&& pos + 2 <= s.body_start
            &&& s.body_start <= s.end <= b.len()
        }),
{
    lemma_leb_len(b, pos + 1, 0);
}

/// The sequence of sections from `pos` to the end of the buffer, or `None`
/// on the first structural fault.
pub open spec fn spec_scan_from(b: Seq<u8>, pos: int) -> Option<Seq<SecInfo>>
    decreases b.len() - pos when 0 <= pos <= b.len()
    via spec_scan_from_decreases
{
    if pos == b.len() {
        Some(Seq::empty())
    } else {
        match spec_parse_section(b, pos) {
            Some(s) => match spec_scan_from(b, s.end) {
                Some(rest) => Some(seq![s] + rest),
                None => None,
            },
            None => None,
        }
    }
}

#[via_fn]
proof fn spec_scan_from_decreases(b: Seq<u8>, pos: int) {
    if pos != b.len() && spec_parse_section(b, pos) is Some {
        lemma_parse_section_bounds(b, pos);
    }
}

/// The sections of a whole binary, after its 8-byte header.
pub open spec fn spec_scan(b: Seq<u8>) -> Option<Seq<SecInfo>> {
    if b.len() < 8 {
        None
    } else {
        spec_scan_from(b, 8)
    }
}

/// Every scanned section lies between `pos` and the end of the buffer, in
/// order, and parses at its own start position.
pub proof fn lemma_scan_from_bounds(b: Seq<u8>, pos: int)
    requires
        0 <= pos <= b.len(),
        spec_scan_from(b, pos) is Some,
    ensures
        ({
            let secs = spec_scan_from(b, pos)->Some_0;
            forall|i: int|
                0 <= i < secs.len() ==> {
                    &&& pos <= #[trigger] secs[i].start
                    &&& secs[i].start + 2 <= secs[i].body_start
                    &&& secs[i].body_start <= secs[i].end <= b.len()
                    &&& spec_parse_section(b, secs[i].start) == Some(secs[i])
                    &&& (i + 1 < secs.len() ==> secs[i].end == secs[i + 1].start)
                    &&& (i + 1 == secs.len() ==> secs[i].end == b.len())
                }
        }),
    decreases b.len() - pos,
{
    if pos == b.len() {
    } else {
        let s = spec_parse_section(b, pos)->Some_0;
        lemma_parse_section_bounds(b, pos);
        lemma_scan_from_bounds(b, s.end);
    }
}

/// A self-delimiting section image: one id byte with the high bit clear, an
/// LEB size, and exactly `size` body bytes.
pub open spec fn wf_block(r: Seq<u8>) -> bool {
    &&& r.len() >= 2
    &&& r[0] & 0x80 == 0
    &&& match spec_leb_u32(r, 1, 0) {
        Some((size, n)) => r.len() == 1 + n + size,
        None => false,
    }
}

/// The body bytes of a section image.
pub open spec fn block_body(r: Seq<u8>) -> Seq<u8> {
    match spec_leb_u32(r, 1, 0) {
        Some((size, n)) => r.subrange(1 + n, r.len() as int),
        None => Seq::empty(),
    }
}

/// A section header read depends only on the bytes of the section: the same
/// bytes at another position parse to the same section, relocated.
pub proof fn lemma_parse_section_agree(b1: Seq<u8>, pos1: int, b2: Seq<u8>, pos2: int)
    requires
        spec_parse_section(b1, pos1) is Some,
        0 <= pos2,
        pos2 + (spec_parse_section(b1, pos1)->Some_0.end - pos1) <= b2.len(),
        forall|i: int|
            0 <= i < spec_parse_section(b1, pos1)->Some_0.end - pos1 ==> #[trigger] b2[pos2 + i]
                == b1[pos1 + i],
    ensures
        ({
            let s = spec_parse_section(b1, pos1)->Some_0;
            spec_parse_section(b2, pos2) == Some(
                SecInfo {
                    id: s.id,
                    start: pos2,
                    body_start: pos2 + (s.body_start - pos1),
                    end: pos2 + (s.end - pos1),
                },
            )
        }),
{
    let s = spec_parse_section(b1, pos1)->Some_0;
    lemma_parse_section_bounds(b1, pos1);
    let (size, n) = spec_leb_u32(b1, pos1 + 1, 0)->Some_0;
    lemma_leb_len(b1, pos1 + 1, 0);
    assert(b2[pos2 + 0] == b1[pos1 + 0]);
    assert(b2[pos2] == b1[pos1]);
    assert forall|i: int| 0 <= i < n implies #[trigger] b2[pos2 + 1 + i] == b1[pos1 + 1 + i] by {
        assert(b2[pos2 + (i + 1)] == b1[pos1 + (i + 1)]);
    }
    lemma_leb_agree(b1, pos1 + 1, b2, pos2 + 1, 0);
}

/// The raw bytes of a parsed section form a well-formed section image with
/// the same id and body.
pub proof fn lemma_parse_section_block(b: Seq<u8>, pos: int)
    requires
        spec_parse_section(b, pos) is Some,
    ensures
        ({
            let s = spec_parse_section(b, pos)->Some_0;
            let r = sec_raw(b, s);
            &&& wf_block(r)
            &&& r.len() == s.end - pos
            &&& r[0] == s.id
            &&& block_body(r) == sec_body(b, s)
        }),
{
    let s = spec_parse_section(b, pos)->Some_0;
    let r = sec_raw(b, s);
    lemma_parse_section_bounds(b, pos);
    let (size, n) = spec_leb_u32(b, pos + 1, 0)->Some_0;
    lemma_leb_len(b, pos + 1, 0);
    assert forall|i: int| 0 <= i < n implies #[trigger] r[1 + i] == b[pos + 1 + i] by {}
    lemma_leb_agree(b, pos + 1, r, 1, 0);
    assert(block_body(r) =~= sec_body(b, s));
}

/// A well-formed section image placed at `pos` parses as that section.
pub proof fn lemma_parse_block_at(b: Seq<u8>, pos: int, r: Seq<u8>)
    requires
        wf_block(r),
        0 <= pos,
        pos + r.len() <= b.len(),
        forall|i: int| 0 <= i < r.len() ==> #[trigger] b[pos + i] == r[i],
    ensures
        spec_parse_section(b, pos) is Some,
        ({
            let s = spec_parse_section(b, pos)->Some_0;
            &&& s.end == pos + r.len()
            &&& s.id == r[0]
            &&& sec_raw(b, s) == r
            &&& sec_body(b, s) == block_body(r)
        }),
{
    let (size, n) = spec_leb_u32(r, 1, 0)->Some_0;
    lemma_leb_len(r, 1, 0);
    assert(spec_parse_section(r, 0) is Some);
    lemma_parse_section_agree(r, 0, b, pos);
    let s = spec_parse_section(b, pos)->Some_0;
    lemma_parse_section_block(b, pos);
    assert forall|i: int| 0 <= i < r.len() implies sec_raw(b, s)[i] == r[i] by {
        assert(b[pos + i] == r[i]);
    }
    assert(sec_raw(b, s) =~= r);
}

/// The byte image of a sequence of section images laid end to end.
pub open spec fn concat_blocks(bs: Seq<Seq<u8>>) -> Seq<u8>
    decreases bs.len(),
{
    if bs.len() == 0 {
        Seq::empty()
    } else {
        bs[0] + concat_blocks(bs.drop_first())
    }
}

/// Scanning a buffer whose tail is a concatenation of well-formed section
/// images yields exactly those sections, in order.
pub proof fn lemma_scan_blocks(b: Seq<u8>, pos: int, bs: Seq<Seq<u8>>)
    requires
        0 <= pos <= b.len(),
        b.subrange(pos, b.len() as int) == concat_blocks(bs),
        forall|i: int| 0 <= i < bs.len() ==> wf_block(#[trigger] bs[i]),
    ensures
        spec_scan_from(b, pos) is Some,
        ({
            let secs = spec_scan_from(b, pos)->Some_0;
            &&& secs.len() == bs.len()
            &&& forall|i: int|
                0 <= i < secs.len() ==> {
                    &&& sec_raw(b, #[trigger] secs[i]) == bs[i]
                    &&& secs[i].id == bs[i][0]
                    &&& sec_body(b, secs[i]) == block_body(bs[i])
                }
        }),
    decreases bs.len(),
{
    let tail = b.subrange(pos, b.len() as int);
    if bs.len() == 0 {
        assert(tail.len() == 0);
        assert(pos == b.len());
    } else {
        let r = bs[0];
        assert(wf_block(r));
        assert(concat_blocks(bs).len() == r.len() + concat_blocks(bs.drop_first()).len());
        assert(pos + r.len() <= b.len());
        assert forall|i: int| 0 <= i < r.len() implies #[trigger] b[pos + i] == r[i] by {
            assert(tail[i] == b[pos + i]);
            assert(concat_blocks(bs)[i] == r[i]);
        }
        lemma_parse_block_at(b, pos, r);
        let s = spec_parse_section(b, pos)->Some_0;
        assert(b.subrange(s.end, b.len() as int) =~= concat_blocks(bs.drop_first())) by {
            assert forall|i: int|
                0 <= i < b.len() - s.end implies #[trigger] b.subrange(s.end, b.len() as int)[i]
                == concat_blocks(bs.drop_first())[i] by {
                assert(tail[r.len() + i] == b[pos + (r.len() + i)]);
                assert(concat_blocks(bs)[r.len() + i] == concat_blocks(bs.drop_first())[i]);
            }
        }
        lemma_scan_blocks(b, s.end, bs.drop_first());
        let rest = spec_scan_from(b, s.end)->Some_0;
        let secs = spec_scan_from(b, pos)->Some_0;
        assert(secs == seq![s] + rest);
        assert forall|i: int|
            0 <= i < secs.len() implies {
            &&& sec_raw(b, #[trigger] secs[i]) == bs[i]
            &&& secs[i].id == bs[i][0]
            &&& sec_body(b, secs[i]) == block_body(bs[i])
        } by {
            if i == 0 {
                assert(secs[0] == s);
            } else {
                assert(secs[i] == rest[i - 1]);
                assert(bs[i] == bs.drop_first()[i - 1]);
            }
        }
    }
}

/// An executable section descriptor; positions are indices into the scanned
/// buffer.
#[derive(Clone, Copy)]
pub struct SectionDesc {
    pub id: u8,
    pub start: usize,
    pub body_start: usize,
    pub end: usize,
}

impl SectionDesc {
    /// The located section this descriptor stands for.
    pub open spec fn model(&self) -> SecInfo {
        SecInfo {
            id: self.id,
            start: self.start as int,
            body_start: self.body_start as int,
            end: self.end as int,
        }
    }
}

/// Scans the top-level sections of a binary. Fails with a structural fault
/// when the buffer is shorter than the 8-byte header or when a section
/// declares a length that would extend past the end of the buffer. Performs
/// no semantic validation of section contents.
pub fn scan_sections(b: &[u8]) -> (r: Result<Vec<SectionDesc>, PipelineError>)
    ensures
        match r {
            Ok(v) => {
                &&& spec_scan(b@) == Some(v@.map_values(|d: SectionDesc| d.model()))
                &&& b@.len() >= 8
            },
            Err(e) => {
                &&& spec_scan(b@) is None
                &&& e@ == crate::errors::ErrorModel::Malformed(
                    if b@.len() < 8 {
                        MalformedKind::Header
                    } else {
                        MalformedKind::Sections
                    },
                )
            },
        },
{
    if b.len() < 8 {
        return Err(PipelineError::MalformedBinary { fault: MalformedKind::Header });
    }
    let mut out: Vec<SectionDesc> = Vec::new();
    let mut pos: usize = 8;
    loop
        invariant
            8 <= pos <= b@.len(),
            b@.len() >= 8,
            spec_scan_from(b@, pos as int) is Some ==> spec_scan_from(b@, 8) is Some
                && spec_scan_from(b@, 8)->Some_0 == out@.map_values(|d: SectionDesc| d.model())
                + spec_scan_from(b@, pos as int)->Some_0,
            spec_scan_from(b@, pos as int) is None ==> spec_scan_from(b@, 8) is None,
        decreases b@.len() - pos,
    {
        if pos == b.len() {
            proof {
                assert(spec_scan_from(b@, pos as int) == Some(Seq::<SecInfo>::empty()));
                assert(out@.map_values(|d: SectionDesc| d.model()) + Seq::<SecInfo>::empty()
                    =~= out@.map_values(|d: SectionDesc| d.model()));
            }
            return Ok(out);
        }
        let id = b[pos];
        if id & 0x80 != 0 {
            return Err(PipelineError::MalformedBinary { fault: MalformedKind::Sections });
        }
        let size_read = leb_u32_from(b, pos + 1, 0);
        match size_read {
            None => {
                return Err(PipelineError::MalformedBinary { fault: MalformedKind::Sections });
            },
            Some((size, n)) => {
                let body_start = pos + 1 + n;
                if (size as usize) > b.len() - body_start {
                    proof {
                        assert(spec_parse_section(b@, pos as int) is None);
                    }
                    return Err(PipelineError::MalformedBinary { fault: MalformedKind::Sections });
                }
                let end = body_start + (size as usize);
                let desc = SectionDesc { id, start: pos, body_start, end };
                proof {
                    assert(spec_parse_section(b@, pos as int) == Some(desc.model()));
                    lemma_parse_section_bounds(b@, pos as int);
                    let f = |d: SectionDesc| d.model();
                    if spec_scan_from(b@, end as int) is Some {
                        assert(spec_scan_from(b@, pos as int) == Some(
                            seq![desc.model()] + spec_scan_from(b@, end as int)->Some_0,
                        ));
                        assert(out@.push(desc).map_values(f) =~= out@.map_values(f) + seq![
                            desc.model(),
                        ]);
                        assert(out@.map_values(f) + (seq![desc.model()] + spec_scan_from(
                            b@,
                            end as int,
                        )->Some_0) =~= out@.push(desc).map_values(f) + spec_scan_from(
                            b@,
                            end as int,
                        )->Some_0);
                    } else {
                        assert(spec_scan_from(b@, pos as int) is None);
                    }
                }
                out.push(desc);
                pos = end;
            },
        }
    }
}

} // verus!
