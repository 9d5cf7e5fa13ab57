use vstd::prelude::*;
use vstd::string::StringSliceAdditionalSpecFns;
use vstd::utf8::{
    encode_utf8, encode_utf8_decode_utf8, is_ascii_chars, is_ascii_chars_encode_utf8,
    encode_utf8_valid_utf8, is_char_boundary, is_char_boundary_iff_not_is_continuation_byte,
    is_char_boundary_start_end_of_seq,
};

verus! {

/// Where a bounded slice starts: the lower bound, clamped to the length; 0 when absent.
pub open spec fn clamp_start(a: Option<usize>, len: nat) -> nat {
    match a {
        Some(t) => if t > len { len } else { t as nat },
        None => 0,
    }
}

/// Where a bounded slice ends: the upper bound, clamped to the length; the length when absent.
pub open spec fn clamp_end(b: Option<usize>, len: nat) -> nat {
    match b {
        Some(t) => if t > len { len } else { t as nat },
        None => len,
    }
}

/// The part of `s` that a bounded slice selects: empty when the clamped start
/// is not below the clamped end.
pub open spec fn bounded_range<T>(s: Seq<T>, a: Option<usize>, b: Option<usize>) -> Seq<T> {
    let lo = clamp_start(a, s.len());
    let hi = clamp_end(b, s.len());
    if lo >= hi {
        Seq::empty()
    } else {
        s.subrange(lo as int, hi as int)
    }
}

/// Bounded slice abstraction: `foo[a..b]` becomes `foo.get_slice(Some(a), Some(b))`,
/// `foo[a..]` becomes `foo.get_slice(Some(a), None)` and `foo[..b]` becomes
/// `foo.get_slice(None, Some(b))`. Out-of-range bounds are clamped instead of panicking.
pub trait GetSlice {
    /// The bounds on which slicing is defined for this type.
    spec fn get_slice_requires(&self, a: Option<usize>, b: Option<usize>) -> bool;

    /// `r` is the part of `self` between the clamped bounds.
    spec fn get_slice_ensures(&self, a: Option<usize>, b: Option<usize>, r: &Self) -> bool;

    fn get_slice(&self, a: Option<usize>, b: Option<usize>) -> (r: &Self)
        requires
            self.get_slice_requires(a, b),
        ensures
            self.get_slice_ensures(a, b, r),
    ;
}

fn clamp_start_exec(a: Option<usize>, len: usize) -> (r: usize)
    ensures
        r == clamp_start(a, len as nat),
{
    match a {
        Some(tmp) => if tmp > len { len } else { tmp },
        None => 0,
    }
}

fn clamp_end_exec(b: Option<usize>, len: usize) -> (r: usize)
    ensures
        r == clamp_end(b, len as nat),
{
    match b {
        Some(tmp) => if tmp > len { len } else { tmp },
        None => len,
    }
}

impl<T> GetSlice for [T] {
    open spec fn get_slice_requires(&self, a: Option<usize>, b: Option<usize>) -> bool {
        true
    }

    open spec fn get_slice_ensures(&self, a: Option<usize>, b: Option<usize>, r: &Self) -> bool {
        r@ == bounded_range(self@, a, b)
    }

    fn get_slice(&self, a: Option<usize>, b: Option<usize>) -> (r: &Self) {
        let len = self.len();
        let lo = clamp_start_exec(a, len);
        let hi = clamp_end_exec(b, len);
        if lo >= hi {
            let e = vstd::slice::slice_subrange(self, lo, lo);
            assert(e@ =~= Seq::<T>::empty());
            return e;
        }
        vstd::slice::slice_subrange(self, lo, hi)
    }
}

impl GetSlice for str {
    /// Bounds are byte offsets; a non-empty selection must start and end on
    /// character boundaries, since the result is a string again.
    open spec fn get_slice_requires(&self, a: Option<usize>, b: Option<usize>) -> bool {
        let bytes = self.spec_bytes();
        let lo = clamp_start(a, bytes.len());
        let hi = clamp_end(b, bytes.len());
        lo < hi ==> is_char_boundary(bytes, lo as int) && is_char_boundary(bytes, hi as int)
    }

    open spec fn get_slice_ensures(&self, a: Option<usize>, b: Option<usize>, r: &Self) -> bool {
        r.spec_bytes() == bounded_range(self.spec_bytes(), a, b)
    }

    fn get_slice(&self, a: Option<usize>, b: Option<usize>) -> (r: &Self) {
        let len = self.as_bytes().len();
        let lo = clamp_start_exec(a, len);
        let hi = clamp_end_exec(b, len);
        let ghost bytes = self.spec_bytes();
        proof {
            encode_utf8_valid_utf8(self@);
            is_char_boundary_start_end_of_seq(bytes);
        }
        if lo >= hi {
            let (e, _) = self.split_at(0);
            assert(e.spec_bytes() =~= Seq::<u8>::empty());
            return e;
        }
        let (_, rest) = self.split_at(lo);
        let ghost rb = rest.spec_bytes();
        proof {
            encode_utf8_valid_utf8(rest@);
            is_char_boundary_start_end_of_seq(rb);
            if hi < len {
                is_char_boundary_iff_not_is_continuation_byte(bytes, hi as int);
                is_char_boundary_iff_not_is_continuation_byte(rb, (hi - lo) as int);
                assert(rb[(hi - lo) as int] == bytes[hi as int]);
            } else {
                assert(rb.len() == (hi - lo) as int);
            }
        }
        let (mid, _) = rest.split_at(hi - lo);
        assert(mid.spec_bytes() =~= bytes.subrange(lo as int, hi as int));
        mid
    }
}

/// Migration law: within bounds, a bounded slice is exactly the range it
/// replaces — `get_slice(Some(a), Some(b))` is `[a..b]`, `get_slice(Some(a), None)`
/// is `[a..]`, and `get_slice(None, Some(b))` is `[..b]`.
pub proof fn lemma_bounded_range_agrees_with_ranges<T>(s: Seq<T>, a: usize, b: usize)
    requires
        a <= b <= s.len(),
    ensures
        bounded_range(s, Some(a), Some(b)) == s.subrange(a as int, b as int),
        bounded_range(s, Some(a), None) == s.subrange(a as int, s.len() as int),
        bounded_range(s, None, Some(b)) == s.subrange(0, b as int),
{
    assert(s.subrange(a as int, a as int) =~= Seq::<T>::empty());
    assert(s.subrange(0, 0) =~= Seq::<T>::empty());
    if a == s.len() {
        assert(s.subrange(a as int, s.len() as int) =~= Seq::<T>::empty());
    }
}

/// Clamping law: whatever the bounds, a bounded slice is a contiguous piece of
/// the sequence, never longer than it, and both bounds absent select all of it.
pub proof fn lemma_bounded_range_is_contiguous_piece<T>(s: Seq<T>, a: Option<usize>, b: Option<usize>)
    ensures
        bounded_range(s, a, b).len() <= s.len(),
        exists|lo: int, hi: int|
            0 <= lo <= hi <= s.len() && bounded_range(s, a, b) == s.subrange(lo, hi),
        bounded_range(s, None, None) == s,
{
    let lo = clamp_start(a, s.len());
    let hi = clamp_end(b, s.len());
    assert(s.subrange(0, s.len() as int) =~= s);
    if lo >= hi {
        assert(s.subrange(lo as int, lo as int) =~= Seq::<T>::empty());
        assert(bounded_range(s, a, b) == s.subrange(lo as int, lo as int));
    } else {
        assert(bounded_range(s, a, b) == s.subrange(lo as int, hi as int));
    }
}

/// ASCII law: on an ASCII string byte offsets are character positions, so a
/// bounded slice of the string selects the same characters as a bounded slice
/// of its characters.
pub proof fn law_ascii_str_slice_selects_chars(s: &str, a: Option<usize>, b: Option<usize>, r: &str)
    requires
        is_ascii_chars(s@),
        r.spec_bytes() == bounded_range(s.spec_bytes(), a, b),
    ensures
        r@ == bounded_range(s@, a, b),
{
    is_ascii_chars_encode_utf8(s@);
    let sub = bounded_range(s@, a, b);
    assert(is_ascii_chars(sub));
    is_ascii_chars_encode_utf8(sub);
    assert(encode_utf8(sub) =~= bounded_range(s.spec_bytes(), a, b));
    encode_utf8_decode_utf8(sub);
    encode_utf8_decode_utf8(r@);
}

} // verus!
