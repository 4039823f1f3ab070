use vstd::prelude::*;

verus! {

/// A window bound as it arrives across the boundary: a negative value means
/// "unbounded in that direction", a non-negative one is clamped into the
/// unsigned 32-bit range before use.
pub open spec fn norm_bound(x: i64) -> Option<u32> {
    if x < 0 {
        None
    } else if x > u32::MAX {
        Some(u32::MAX)
    } else {
        Some(x as u32)
    }
}

/// The first result position a batch update touches: the offset, clamped to
/// the number of matches; an absent offset skips nothing.
pub open spec fn win_start(off: Option<u32>, len: int) -> int {
    match off {
        None => 0,
        Some(o) => if o <= len {
            o as int
        } else {
            len
        },
    }
}

/// One past the last result position a batch update touches: at most
/// `limit` positions after the start; an absent limit runs to the end.
pub open spec fn win_end(lim: Option<u32>, start: int, len: int) -> int {
    match lim {
        None => len,
        Some(l) => if start + l <= len {
            start + l
        } else {
            len
        },
    }
}

/// Normalizes one boundary-supplied window bound.
pub fn normalize_bound(x: i64) -> (r: Option<u32>)
    ensures
        r == norm_bound(x),
{
    if x < 0 {
        None
    } else if x > u32::MAX as i64 {
        Some(u32::MAX)
    } else {
        Some(x as u32)
    }
}

} // verus!
