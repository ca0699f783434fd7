//! A generic clamped linear remap between two closed ranges, in fixed-point
//! micro-units.

use vstd::arithmetic::div_mod::{lemma_div_by_multiple, lemma_div_is_ordered, lemma_div_pos_is_pos};
use vstd::arithmetic::mul::{lemma_mul_inequality, lemma_mul_nonnegative};
use vstd::prelude::*;

verus! {

/// Micro-units per unit of a provider's temperature scale: `700_000`
/// micro-units stand for `0.7`.
pub const MICROS_PER_UNIT: i64 = 1_000_000;

/// Largest magnitude, in micro-units, accepted for a range endpoint
/// (one thousand units). Keeps every intermediate product of the remap
/// arithmetic inside `i64`/`u64`.
pub const ENDPOINT_LIMIT: i64 = 1_000_000_000;

/// Mathematical model of a range: its two endpoints as unbounded integers.
/// No relation between `min` and `max` is required: degenerate
/// (`min == max`) and inverted (`min > max`) ranges are admitted.
pub struct RangeModel {
    pub min: int,
    pub max: int,
}

/// Both endpoints within `ENDPOINT_LIMIT` in magnitude.
pub open spec fn in_bounds(m: RangeModel) -> bool {
    &&& -ENDPOINT_LIMIT <= m.min <= ENDPOINT_LIMIT
    &&& -ENDPOINT_LIMIT <= m.max <= ENDPOINT_LIMIT
}

/// `v` clamped with `lo` as the lower clamp bound and `hi` as the upper,
/// taken literally: when `lo > hi` the result is still `lo` for `v < lo`
/// and otherwise `hi`, reproducing a clamp on the fields as given rather
/// than on their numeric order.
pub open spec fn clamp_spec(v: int, lo: int, hi: int) -> int {
    if v < lo {
        lo
    } else if v > hi {
        hi
    } else {
        v
    }
}

/// The point `num / den` of the way from `t.min` to `t.max`, for
/// `0 <= num <= den`, `0 < den`; the magnitude of the offset from `t.min`
/// is rounded down, so the result is exact whenever `den` divides
/// `num * (t.max - t.min)`.
pub open spec fn lerp_spec(t: RangeModel, num: int, den: int) -> int {
    if t.max >= t.min {
        t.min + (num * (t.max - t.min)) / den
    } else {
        t.min - (num * (t.min - t.max)) / den
    }
}

/// What `Range::map_to` returns: `v` is clamped into `[s.min, s.max]`
/// (fields taken literally), a degenerate source maps everything to
/// `t.min`, and otherwise the clamped value's relative position in `s`
/// is reproduced in `t`. For an inverted source (`s.min > s.max`) the
/// clamped value can only be one of the two endpoints, and the ratio is
/// exactly `0` or `1`.
pub open spec fn map_to_spec(s: RangeModel, t: RangeModel, v: int) -> int {
    let c = clamp_spec(v, s.min, s.max);
    if s.min == s.max {
        t.min
    } else if s.min < s.max {
        lerp_spec(t, c - s.min, s.max - s.min)
    } else {
        if c == s.min {
            t.min
        } else {
            t.max
        }
    }
}

/// A closed interval of fixed-point temperatures, in micro-units.
#[derive(Debug, Clone, Copy)]
pub struct Range {
    pub min: i64,
    pub max: i64,
}

impl View for Range {
    type V = RangeModel;

    open spec fn view(&self) -> RangeModel {
        RangeModel { min: self.min as int, max: self.max as int }
    }
}

impl Range {
    /// Endpoints small enough for the remap arithmetic.
    pub open spec fn wf(&self) -> bool {
        in_bounds(self@)
    }

    /// Maps `value` from `self` to the target range: clamps it into
    /// `[self.min, self.max]`, then places it at the same relative
    /// position within `target`.
    pub fn map_to(&self, target: Range, value: i64) -> (r: i64)
        requires
            self.wf(),
            target.wf(),
        ensures
            r == map_to_spec(self@, target@, value as int),
    {
        let clamped: i64 = if value < self.min {
            self.min
        } else if value > self.max {
            self.max
        } else {
            value
        };
        if self.min == self.max {
            target.min
        } else if self.min < self.max {
            let num: u64 = (clamped - self.min) as u64;
            let den: u64 = (self.max - self.min) as u64;
            if target.max >= target.min {
                let span: u64 = (target.max - target.min) as u64;
                proof {
                    lemma_lerp_quotient_bounds(num as int, den as int, span as int);
                }
                target.min + ((num * span) / den) as i64
            } else {
                let span: u64 = (target.min - target.max) as u64;
                proof {
                    lemma_lerp_quotient_bounds(num as int, den as int, span as int);
                }
                target.min - ((num * span) / den) as i64
            }
        } else {
            if clamped == self.min {
                target.min
            } else {
                target.max
            }
        }
    }
}

/// For `0 <= num <= den` and `0 <= span`, the quotient `num * span / den`
/// lies between `0` and `span`; with both factors below two billion the
/// product also stays far inside the machine types.
proof fn lemma_lerp_quotient_bounds(num: int, den: int, span: int)
    requires
        0 <= num <= den,
        0 < den <= 2_000_000_000,
        0 <= span <= 2_000_000_000,
    ensures
        0 <= (num * span) / den <= span,
        num * span <= 4_000_000_000_000_000_000,
{
    lemma_mul_nonnegative(num, span);
    lemma_mul_inequality(num, den, span);
    lemma_div_pos_is_pos(num * span, den);
    lemma_div_is_ordered(num * span, den * span, den);
    lemma_div_by_multiple(span, den);
    assert(den * span == span * den) by (nonlinear_arith);
    assert(num * span <= 4_000_000_000_000_000_000) by (nonlinear_arith)
        requires
            0 <= num <= 2_000_000_000,
            0 <= span <= 2_000_000_000,
    ;
}

/// Identity law: mapping a value from a range onto that same range
/// returns the clamped value itself, exactly, for every range — proper,
/// degenerate or inverted.
pub proof fn lemma_map_to_identity(r: RangeModel, v: int)
    ensures
        map_to_spec(r, r, v) == clamp_spec(v, r.min, r.max),
{
    let c = clamp_spec(v, r.min, r.max);
    if r.min < r.max {
        lemma_div_by_multiple(c - r.min, r.max - r.min);
    }
}

/// Monotonicity law: within a proper source range, the mapping is
/// non-decreasing in the value when the target is not inverted, and
/// non-increasing when it is.
pub proof fn lemma_map_to_monotonic(s: RangeModel, t: RangeModel, v1: int, v2: int)
    requires
        s.min <= s.max,
        s.min <= v1 <= v2 <= s.max,
    ensures
        t.max >= t.min ==> map_to_spec(s, t, v1) <= map_to_spec(s, t, v2),
        t.max < t.min ==> map_to_spec(s, t, v1) >= map_to_spec(s, t, v2),
{
    if s.min < s.max {
        let den = s.max - s.min;
        let span = if t.max >= t.min {
            t.max - t.min
        } else {
            t.min - t.max
        };
        lemma_mul_inequality(v1 - s.min, v2 - s.min, span);
        lemma_div_is_ordered((v1 - s.min) * span, (v2 - s.min) * span, den);
    }
}

/// Lower clamping law: a value below the source minimum maps to the
/// target minimum, for every source range.
pub proof fn lemma_map_to_clamps_low(s: RangeModel, t: RangeModel, v: int)
    requires
        v < s.min,
    ensures
        map_to_spec(s, t, v) == t.min,
{
    if s.min < s.max {
        assert(clamp_spec(v, s.min, s.max) == s.min);
        lemma_div_by_multiple(0, s.max - s.min);
        assert(0 * (t.max - t.min) == 0) by (nonlinear_arith);
        assert(0 * (t.min - t.max) == 0) by (nonlinear_arith);
        assert(0 * (s.max - s.min) == 0) by (nonlinear_arith);
    }
}

/// Upper clamping law: for a proper, non-degenerate source range, a value
/// above the source maximum maps to the target maximum. (A degenerate
/// source maps everything to `t.min` instead, and an inverted source
/// sends values strictly between its fields to `t.min`, so the law is
/// stated for `s.min < s.max` only.)
pub proof fn lemma_map_to_clamps_high(s: RangeModel, t: RangeModel, v: int)
    requires
        s.min < s.max,
        v > s.max,
    ensures
        map_to_spec(s, t, v) == t.max,
{
    let den = s.max - s.min;
    assert(clamp_spec(v, s.min, s.max) == s.max);
    if t.max >= t.min {
        lemma_div_by_multiple(t.max - t.min, den);
        assert(den * (t.max - t.min) == (t.max - t.min) * den) by (nonlinear_arith);
    } else {
        lemma_div_by_multiple(t.min - t.max, den);
        assert(den * (t.min - t.max) == (t.min - t.max) * den) by (nonlinear_arith);
    }
}

/// Degenerate-source law: when the source range is a single point, every
/// value maps to the target minimum.
pub proof fn lemma_map_to_degenerate(s: RangeModel, t: RangeModel, v: int)
    requires
        s.min == s.max,
    ensures
        map_to_spec(s, t, v) == t.min,
{
}

} // verus!
