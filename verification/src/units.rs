//! Fixed-point units and the arithmetic the backends share.
//!
//! Linear volume is measured in milli-units: 0 is silence and 1000 is
//! unity gain. The amplitude actually handed to a mixing engine is
//! measured in micro-units, and the graph engine's linear-to-amplitude
//! law is the square of the linear volume, which is exact in this
//! scale: `amp_micro == v_milli * v_milli`.

use vstd::prelude::*;

verus! {

use vstd::arithmetic::div_mod::lemma_div_is_ordered;
use vstd::arithmetic::div_mod::lemma_div_multiples_vanish;
use vstd::arithmetic::mul::lemma_mul_inequality;

/// Unity gain in milli-units of linear volume.
pub const MILLI_UNITY: u32 = 1000;

/// The graph engine's linear-to-amplitude law: amplitude (micro-units)
/// is the square of the linear volume (milli-units).
pub open spec fn spec_amp_micro(v_milli: int) -> int {
    v_milli * v_milli
}

/// Convert a linear volume in milli-units to the applied amplitude in
/// micro-units. Both backends route every volume through this one law.
pub fn linear_to_amp_micro(v: u32) -> (r: u64)
    ensures
        r == spec_amp_micro(v as int),
{
    proof {
        lemma_mul_inequality(v as int, u32::MAX as int, v as int);
        lemma_mul_inequality(u32::MAX as int, u32::MAX as int, v as int);
    }
    (v as u64) * (v as u64)
}

/// Linear interpolation between two volumes, evaluated at
/// `elapsed / duration` of the tween. Once `elapsed >= duration` the
/// result is exactly `end` (this covers a zero duration too).
pub open spec fn spec_lerp(start: int, end: int, elapsed: int, duration: int) -> int {
    if elapsed >= duration {
        end
    } else if end >= start {
        start + (end - start) * elapsed / duration
    } else {
        start - (start - end) * elapsed / duration
    }
}

/// The interpolant stays between its two endpoints.
pub proof fn lemma_lerp_bounds(start: int, end: int, elapsed: int, duration: int)
    requires
        0 <= start,
        0 <= end,
        0 <= elapsed,
    ensures
        spec_lerp(start, end, elapsed, duration) >= if start <= end {
            start
        } else {
            end
        },
        spec_lerp(start, end, elapsed, duration) <= if start <= end {
            end
        } else {
            start
        },
{
    if elapsed < duration {
        if end >= start {
            lemma_quotient_within((end - start) as nat, elapsed as nat, duration as nat);
        } else {
            lemma_quotient_within((start - end) as nat, elapsed as nat, duration as nat);
        }
    }
}

/// A product of a 32-bit value and a 64-bit value fits in 128 bits.
proof fn lemma_mul_fits_u128(diff: nat, elapsed: nat)
    requires
        diff <= u32::MAX,
        elapsed <= u64::MAX,
    ensures
        diff * elapsed <= u128::MAX,
{
    lemma_mul_inequality(diff as int, u32::MAX as int, elapsed as int);
    lemma_mul_inequality(elapsed as int, u64::MAX as int, u32::MAX as int);
    assert(u32::MAX as int * elapsed as int == elapsed as int * u32::MAX as int);
    assert((u64::MAX as int) * (u32::MAX as int) <= u128::MAX as int) by (nonlinear_arith);
}

/// For `elapsed < duration`, the scaled quotient `diff * elapsed / duration`
/// lies between 0 and `diff`.
proof fn lemma_quotient_within(diff: nat, elapsed: nat, duration: nat)
    requires
        elapsed < duration,
    ensures
        0 <= diff * elapsed / duration <= diff,
{
    lemma_mul_inequality(elapsed as int, duration as int, diff as int);
    assert(diff * elapsed == elapsed * diff) by {
        vstd::arithmetic::mul::lemma_mul_is_commutative(diff as int, elapsed as int);
    }
    assert(diff * duration == duration * diff) by {
        vstd::arithmetic::mul::lemma_mul_is_commutative(diff as int, duration as int);
    }
    lemma_div_is_ordered(diff as int * elapsed as int, diff as int * duration as int, duration as int);
    lemma_div_multiples_vanish(diff as int, duration as int);
    assert(diff * elapsed / duration >= 0) by {
        vstd::arithmetic::mul::lemma_mul_nonnegative(diff as int, elapsed as int);
        vstd::arithmetic::div_mod::lemma_div_pos_is_pos(diff as int * elapsed as int, duration as int);
    }
}

/// Evaluate a volume tween at `elapsed_ms` of `duration_ms`, in
/// milli-units of linear volume.
pub fn lerp_milli(start: u32, end: u32, elapsed_ms: u64, duration_ms: u64) -> (r: u32)
    ensures
        r == spec_lerp(start as int, end as int, elapsed_ms as int, duration_ms as int),
{
    if elapsed_ms >= duration_ms {
        end
    } else if end >= start {
        let diff: u128 = (end - start) as u128;
        proof {
            lemma_mul_fits_u128(diff as nat, elapsed_ms as nat);
        }
        let q: u128 = diff * (elapsed_ms as u128) / (duration_ms as u128);
        proof {
            lemma_quotient_within(diff as nat, elapsed_ms as nat, duration_ms as nat);
        }
        start + (q as u32)
    } else {
        let diff: u128 = (start - end) as u128;
        proof {
            lemma_mul_fits_u128(diff as nat, elapsed_ms as nat);
        }
        let q: u128 = diff * (elapsed_ms as u128) / (duration_ms as u128);
        proof {
            lemma_quotient_within(diff as nat, elapsed_ms as nat, duration_ms as nat);
        }
        start - (q as u32)
    }
}

/// A sample's nominal play length once its speed multiplier is
/// applied: `duration_ms * 1000 / speed_milli`, pinned at the largest
/// representable time.
pub open spec fn spec_scaled_duration(duration_ms: int, speed_milli: int) -> int {
    let n = duration_ms * 1000 / speed_milli;
    if n > u64::MAX {
        u64::MAX as int
    } else {
        n
    }
}

/// Scale a nominal duration by a playback speed in milli-units: half
/// speed doubles the play length, double speed halves it.
pub fn scale_duration_ms(duration_ms: u64, speed_milli: u32) -> (r: u64)
    requires
        speed_milli > 0,
    ensures
        r == spec_scaled_duration(duration_ms as int, speed_milli as int),
{
    proof {
        lemma_mul_fits_u128(1000, duration_ms as nat);
        assert(duration_ms as int * 1000 == 1000 * duration_ms as int);
    }
    let n: u128 = (duration_ms as u128) * 1000 / (speed_milli as u128);
    if n > u64::MAX as u128 {
        u64::MAX
    } else {
        n as u64
    }
}

/// Millisecond addition that pins at the largest representable time
/// instead of wrapping.
pub fn saturating_add_ms(a: u64, b: u64) -> (r: u64)
    ensures
        r == if a + b > u64::MAX {
            u64::MAX as int
        } else {
            a + b
        },
{
    if b > u64::MAX - a {
        u64::MAX
    } else {
        a + b
    }
}

/// Millisecond subtraction that stops at zero (used for grace timers).
pub fn saturating_sub_ms(a: u64, b: u64) -> (r: u64)
    ensures
        r == if a >= b {
            a - b
        } else {
            0
        },
{
    if a >= b {
        a - b
    } else {
        0
    }
}

} // verus!
