//! Byte-sequence helpers shared by the pipeline stages: range copies,
//! prefix tests and substring search over raw section bytes.

use vstd::prelude::*;

verus! {

/// `pat` occurs somewhere inside `s`.
pub open spec fn contains_seq(s: Seq<u8>, pat: Seq<u8>) -> bool {
    exists|k: int|
        0 <= k <= s.len() - pat.len() && #[trigger] s.subrange(k, k + pat.len()) == pat
}

/// Appends `b[from..to]` to `out`.
pub fn push_range(out: &mut Vec<u8>, b: &[u8], from: usize, to: usize)
    requires
        from <= to <= b@.len(),
    ensures
        final(out)@ == old(out)@ + b@.subrange(from as int, to as int),
{
    let mut j: usize = from;
    while j < to
        invariant
            from <= j <= to <= b@.len(),
            out@ == old(out)@ + b@.subrange(from as int, j as int),
        decreases to - j,
    {
        out.push(b[j]);
        proof {
            assert(out@ =~= old(out)@ + b@.subrange(from as int, j as int + 1));
        }
        j = j + 1;
    }
    proof {
        assert(out@ =~= old(out)@ + b@.subrange(from as int, to as int));
    }
}

/// Copies `b[from..to]` into a fresh vector.
pub fn sub_vec(b: &[u8], from: usize, to: usize) -> (r: Vec<u8>)
    requires
        from <= to <= b@.len(),
    ensures
        r@ == b@.subrange(from as int, to as int),
{
    let mut out: Vec<u8> = Vec::new();
    push_range(&mut out, b, from, to);
    proof {
        assert(out@ =~= b@.subrange(from as int, to as int));
    }
    out
}

/// Whether `s` starts with `pat`.
pub fn has_prefix(s: &[u8], pat: &[u8]) -> (r: bool)
    ensures
        r == pat@.is_prefix_of(s@),
{
    if pat.len() > s.len() {
        return false;
    }
    let mut j: usize = 0;
    while j < pat.len()
        invariant
            0 <= j <= pat@.len() <= s@.len(),
            forall|i: int| 0 <= i < j ==> s@[i] == pat@[i],
        decreases pat@.len() - j,
    {
        if s[j] != pat[j] {
            proof {
                assert(s@.subrange(0, pat@.len() as int)[j as int] != pat@[j as int]);
            }
            return false;
        }
        j = j + 1;
    }
    proof {
        assert(s@.subrange(0, pat@.len() as int) =~= pat@);
    }
    true
}

/// Whether two byte slices hold the same bytes.
pub fn bytes_eq(a: &[u8], b: &[u8]) -> (r: bool)
    ensures
        r == (a@ == b@),
{
    if a.len() != b.len() {
        return false;
    }
    let r = matches_at(a, 0, b);
    proof {
        assert(a@.subrange(0, b@.len() as int) =~= a@);
    }
    r
}

/// Whether `s[at..at + pat.len()]` equals `pat`.
fn matches_at(s: &[u8], at: usize, pat: &[u8]) -> (r: bool)
    requires
        at + pat@.len() <= s@.len(),
    ensures
        r == (s@.subrange(at as int, at + pat@.len()) == pat@),
{
    let n = s.len();
    let mut j: usize = 0;
    while j < pat.len()
        invariant
            0 <= j <= pat@.len(),
            at + pat@.len() <= s@.len(),
            n == s@.len(),
            forall|i: int| 0 <= i < j ==> s@[at + i] == pat@[i],
        decreases pat@.len() - j,
    {
        if s[at + j] != pat[j] {
            proof {
                assert(s@.subrange(at as int, at + pat@.len())[j as int] != pat@[j as int]);
            }
            return false;
        }
        j = j + 1;
    }
    proof {
        assert(s@.subrange(at as int, at + pat@.len()) =~= pat@);
    }
    true
}

/// Whether `pat` occurs anywhere inside `s`.
pub fn contains_sub(s: &[u8], pat: &[u8]) -> (r: bool)
    ensures
        r == contains_seq(s@, pat@),
{
    if pat.len() > s.len() {
        proof {
            assert(!contains_seq(s@, pat@));
        }
        return false;
    }
    let last = s.len() - pat.len();
    let mut k: usize = 0;
    loop
        invariant
            0 <= k <= last,
            last == s@.len() - pat@.len(),
            pat@.len() <= s@.len(),
            forall|kk: int| 0 <= kk < k ==> #[trigger] s@.subrange(kk, kk + pat@.len()) != pat@,
        decreases last - k,
    {
        if matches_at(s, k, pat) {
            proof {
                assert(contains_seq(s@, pat@));
            }
            return true;
        }
        if k == last {
            proof {
                assert(!contains_seq(s@, pat@));
            }
            return false;
        }
        k = k + 1;
    }
}

} // verus!
