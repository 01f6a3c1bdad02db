//! SDK version compatibility rules: a declared dependency version matches
//! the CLI's SDK when, after removing semver request prefixes, it equals
//! the SDK version exactly.

use vstd::prelude::*;
use crate::util::{bytes_eq, sub_vec};

verus! {

/// Whether a byte is one of the semver request prefixes `^`, `~`, `=`.
pub open spec fn is_req_prefix_byte(c: u8) -> bool {
    c == 0x5e || c == 0x7e || c == 0x3d
}

/// A version request with every leading `^`, `~` or `=` removed.
pub open spec fn spec_strip_req_prefix(v: Seq<u8>) -> Seq<u8>
    decreases v.len(),
{
    if v.len() > 0 && is_req_prefix_byte(v[0]) {
        spec_strip_req_prefix(v.drop_first())
    } else {
        v
    }
}

/// Removes the leading semver request prefixes of a declared version.
pub fn normalize_version_req(req: &[u8]) -> (r: Vec<u8>)
    ensures
        r@ == spec_strip_req_prefix(req@),
{
    let mut i: usize = 0;
    proof {
        assert(req@.subrange(0, req@.len() as int) =~= req@);
    }
    while i < req.len() && (req[i] == 0x5e || req[i] == 0x7e || req[i] == 0x3d)
        invariant
            0 <= i <= req@.len(),
            spec_strip_req_prefix(req@) == spec_strip_req_prefix(
                req@.subrange(i as int, req@.len() as int),
            ),
        decreases req@.len() - i,
    {
        proof {
            let cur = req@.subrange(i as int, req@.len() as int);
            let nxt = req@.subrange(i as int + 1, req@.len() as int);
            assert(cur[0] == req@[i as int]);
            assert(cur.drop_first() =~= nxt);
        }
        i = i + 1;
    }
    proof {
        let cur = req@.subrange(i as int, req@.len() as int);
        if i < req@.len() {
            assert(cur[0] == req@[i as int]);
        }
        assert(spec_strip_req_prefix(cur) == cur);
    }
    sub_vec(req, i, req.len())
}

/// Whether a declared version request is compatible with the SDK version:
/// exact match after removing request prefixes.
pub fn is_compatible(user: &[u8], system: &[u8]) -> (r: bool)
    ensures
        r == (spec_strip_req_prefix(user@) == system@),
{
    let clean = normalize_version_req(user);
    bytes_eq(clean.as_slice(), system)
}

} // verus!
