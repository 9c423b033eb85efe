//! Resolution of caller-supplied dimension directives against a reference
//! dimension: an absolute pixel count, or a fraction of the reference.

use vstd::prelude::*;

verus! {

/// A dimension directive: a magnitude `num / den`, negative when `neg` is
/// set, taken as a fraction of the reference dimension when `pct` is set,
/// else as an absolute pixel count. Results are truncated toward zero. A
/// negative magnitude only means something as a raw overlay offset; for
/// sizes it resolves to zero and the caller rejects it.
#[derive(Clone, Copy, Debug, PartialEq, Eq, Structural)]
pub struct Dim {
    pub num: u64,
    pub den: u64,
    pub pct: bool,
    pub neg: bool,
}

impl Dim {
    /// Validity: the denominator of the magnitude is positive.
    pub open spec fn wf(self) -> bool {
        self.den >= 1
    }

    /// An absolute pixel count.
    pub fn px(v: u64) -> (r: Dim)
        ensures
            r.wf(),
            r == (Dim { num: v, den: 1u64, pct: false, neg: false }),
    {
        Dim { num: v, den: 1, pct: false, neg: false }
    }

    /// A non-negative magnitude `num / den`; a fraction of the reference
    /// dimension when `pct` is set.
    pub fn ratio(num: u64, den: u64, pct: bool) -> (r: Dim)
        requires
            den >= 1,
        ensures
            r.wf(),
            r == (Dim { num, den, pct, neg: false }),
    {
        Dim { num, den, pct, neg: false }
    }

    /// A signed magnitude `num / den`, negative when `neg` is set; a
    /// fraction of the reference dimension when `pct` is set.
    pub fn signed(neg: bool, num: u64, den: u64, pct: bool) -> (r: Dim)
        requires
            den >= 1,
        ensures
            r.wf(),
            r == (Dim { num, den, pct, neg }),
    {
        Dim { num, den, pct, neg }
    }
}

/// The magnitude of a directive against a reference dimension, before its
/// sign: `reference * magnitude` for a percentage directive, else the
/// magnitude itself, truncated toward zero and saturated to the unsigned
/// pixel range.
pub open spec fn magnitude_spec(reference: u32, d: Dim) -> u32 {
    let raw = if d.pct {
        (reference * d.num) / (d.den as int)
    } else {
        (d.num as int) / (d.den as int)
    };
    if raw > u32::MAX {
        u32::MAX
    } else {
        raw as u32
    }
}

/// What `resolve` returns: the magnitude for a non-negative directive; a
/// negative one resolves to zero, as an unsigned size saturates.
pub open spec fn resolve_spec(reference: u32, d: Dim) -> u32 {
    if d.neg {
        0
    } else {
        magnitude_spec(reference, d)
    }
}

/// What `resolve_signed` returns: the magnitude under the directive's sign,
/// for raw overlay offsets where negatives are permitted before clamping.
pub open spec fn resolve_signed_spec(reference: u32, d: Dim) -> int {
    if d.neg {
        -(magnitude_spec(reference, d) as int)
    } else {
        magnitude_spec(reference, d) as int
    }
}

/// The unsigned magnitude of a directive against a reference dimension.
fn magnitude(reference: u32, d: Dim) -> (r: u32)
    requires
        d.wf(),
    ensures
        r == magnitude_spec(reference, d),
{
    let num: u128 = d.num as u128;
    let den: u128 = d.den as u128;
    proof {
        assert((reference as int) * (num as int) <= 0xffff_ffff * 0xffff_ffff_ffff_ffff)
            by (nonlinear_arith)
            requires
                0 <= reference <= 0xffff_ffffu32,
                0 <= num <= 0xffff_ffff_ffff_ffffu64,
        ;
    }
    let raw: u128 = if d.pct {
        ((reference as u128) * num) / den
    } else {
        num / den
    };
    if raw > u32::MAX as u128 {
        u32::MAX
    } else {
        raw as u32
    }
}

/// Converts a dimension directive into an absolute pixel count against a
/// reference dimension. Pure; out-of-range results saturate at the pixel
/// range and negative magnitudes at zero, and rejecting a zero result is the
/// caller's business.
pub fn resolve(reference: u32, d: Dim) -> (r: u32)
    requires
        d.wf(),
    ensures
        r == resolve_spec(reference, d),
{
    if d.neg {
        0
    } else {
        magnitude(reference, d)
    }
}

/// Converts a dimension directive into a signed raw offset against a
/// reference dimension, for overlay placement, where a negative offset is
/// permitted before clamping.
pub fn resolve_signed(reference: u32, d: Dim) -> (r: i64)
    requires
        d.wf(),
    ensures
        r == resolve_signed_spec(reference, d),
{
    let m = magnitude(reference, d);
    if d.neg {
        -(m as i64)
    } else {
        m as i64
    }
}

} // verus!
