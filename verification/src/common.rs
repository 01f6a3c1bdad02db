//! Shared pipeline helpers: language-identifier normalisation and SDK
//! version resolution over plain values.

use vstd::prelude::*;
use vstd::string::StringSliceAdditionalSpecFns;
use vstd::slice::slice_to_vec;
use crate::checker::{normalize_version_req, spec_strip_req_prefix};
use crate::util::bytes_eq;

verus! {

/// ASCII lowercasing, byte by byte.
pub open spec fn spec_ascii_lower(b: Seq<u8>) -> Seq<u8> {
    b.map_values(
        |c: u8|
            if 0x41 <= c && c <= 0x5a {
                (c + 0x20) as u8
            } else {
                c
            },
    )
}

/// The canonical identifier of a language: known aliases collapse to
/// `rust`, `ts` or `python`; anything else is kept, lowercased.
pub open spec fn spec_normalize_language(b: Seq<u8>) -> Seq<u8> {
    let low = spec_ascii_lower(b);
    if low == "rust".spec_bytes() || low == "rs".spec_bytes() {
        "rust".spec_bytes()
    } else if low == "ts".spec_bytes() || low == "typescript".spec_bytes() || low
        == "js".spec_bytes() || low == "node".spec_bytes() {
        "ts".spec_bytes()
    } else if low == "py".spec_bytes() || low == "python".spec_bytes() {
        "python".spec_bytes()
    } else {
        low
    }
}

/// A language identifier that selects the Rust build strategy.
pub open spec fn spec_is_rust_language(b: Seq<u8>) -> bool {
    spec_ascii_lower(b) == "rust".spec_bytes() || spec_ascii_lower(b) == "rs".spec_bytes()
}

/// Lowercases ASCII letters, leaving every other byte as it is.
fn ascii_lower(b: &[u8]) -> (r: Vec<u8>)
    ensures
        r@ == spec_ascii_lower(b@),
{
    let mut out: Vec<u8> = Vec::new();
    let mut i: usize = 0;
    proof {
        assert(out@ =~= spec_ascii_lower(b@).take(0));
    }
    while i < b.len()
        invariant
            0 <= i <= b@.len(),
            out@ == spec_ascii_lower(b@).take(i as int),
        decreases b@.len() - i,
    {
        let c = b[i];
        if 0x41 <= c && c <= 0x5a {
            out.push(c + 0x20);
        } else {
            out.push(c);
        }
        proof {
            assert(spec_ascii_lower(b@)[i as int] == (if 0x41 <= b@[i as int] && b@[i as int]
                <= 0x5a {
                (b@[i as int] + 0x20) as u8
            } else {
                b@[i as int]
            }));
            assert(out@ =~= spec_ascii_lower(b@).take(i as int + 1));
        }
        i = i + 1;
    }
    proof {
        assert(spec_ascii_lower(b@).take(b@.len() as int) =~= spec_ascii_lower(b@));
    }
    out
}

/// Collapses a language identifier to its canonical form.
pub fn normalize_language(language: &[u8]) -> (r: Vec<u8>)
    ensures
        r@ == spec_normalize_language(language@),
{
    let low = ascii_lower(language);
    if bytes_eq(low.as_slice(), "rust".as_bytes()) || bytes_eq(low.as_slice(), "rs".as_bytes()) {
        slice_to_vec("rust".as_bytes())
    } else if bytes_eq(low.as_slice(), "ts".as_bytes()) || bytes_eq(
        low.as_slice(),
        "typescript".as_bytes(),
    ) || bytes_eq(low.as_slice(), "js".as_bytes()) || bytes_eq(
        low.as_slice(),
        "node".as_bytes(),
    ) {
        slice_to_vec("ts".as_bytes())
    } else if bytes_eq(low.as_slice(), "py".as_bytes()) || bytes_eq(
        low.as_slice(),
        "python".as_bytes(),
    ) {
        slice_to_vec("python".as_bytes())
    } else {
        low
    }
}

/// Resolves the SDK version a build records in its artifact metadata: only
/// a Rust project has one, and it is the version its manifest declares,
/// with semver request prefixes removed.
pub fn resolve_sdk_version(language: &[u8], declared: Option<Vec<u8>>) -> (r: Option<Vec<u8>>)
    ensures
        match r {
            Some(v) => spec_is_rust_language(language@) && (declared matches Some(d) && v@
                == spec_strip_req_prefix(d@)),
            None => !spec_is_rust_language(language@) || declared is None,
        },
{
    let low = ascii_lower(language);
    if bytes_eq(low.as_slice(), "rust".as_bytes()) || bytes_eq(low.as_slice(), "rs".as_bytes()) {
        match declared {
            Some(d) => Some(normalize_version_req(d.as_slice())),
            None => None,
        }
    } else {
        None
    }
}

} // verus!
