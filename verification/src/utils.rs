//! Generic range mapping (also the virtual-to-physical pixel mapper) and the
//! quarter-wave sine table behind the wobble and attract animations.

use vstd::assert_seqs_equal;
use vstd::prelude::*;

verus! {

/// Half of the 32-bit timestamp range.  A wrapping difference below this
/// bound means the reference timestamp lies in the past; at or above it the
/// reference lies in the future (a timer whose start was delayed).
pub const TIME_HALF_RANGE: u32 = 0x8000_0000;

/// Milliseconds elapsed since `since`, on the wrapping 32-bit clock.
pub open spec fn spec_elapsed(time: u32, since: u32) -> u32 {
    vstd::wrapping::u32_specs::wrapping_sub(time, since)
}

/// Whether `stamp` lies strictly in the past of `time` by more than `dur`
/// milliseconds, in wraparound order.  A stamp still in the future (its
/// wrapping distance at least half the range) has not expired.
pub open spec fn spec_expired(time: u32, stamp: u32, dur: u32) -> bool {
    spec_elapsed(time, stamp) > dur && spec_elapsed(time, stamp) < TIME_HALF_RANGE
}

/// Truncating (Rust-style) division by a positive divisor, as a function on
/// mathematical integers.
pub open spec fn spec_tdiv(a: int, d: int) -> int {
    if a >= 0 {
        a / d
    } else {
        -((-a) / d)
    }
}

/// Linear map of `i` from the range `imin..imax` to the range `omin..omax`.
/// Either range may be given inverted (max before min); the map then runs
/// backwards over that range.
pub open spec fn spec_range_map(i: int, imin: int, imax: int, omin: int, omax: int) -> int {
    let ispan = if imax < imin { imin - imax } else { imax - imin };
    let ospan = if omax < omin { omin - omax } else { omax - omin };
    let invert = (imax < imin) != (omax < omin);
    if invert {
        omin - spec_tdiv((i - imin) * ospan, ispan)
    } else {
        omin + spec_tdiv((i - imin) * ospan, ispan)
    }
}

/// Linear, direction-aware range map on signed coordinates.  Used for the
/// virtual-to-physical pixel mapping and for animation fades.
pub fn range_map(i: i32, imin: i32, imax: i32, omin: i32, omax: i32) -> (r: i32)
    requires
        imin != imax,
        -50_000 <= imin <= 50_000,
        -50_000 <= imax <= 50_000,
        -50_000 <= omin <= 50_000,
        -50_000 <= omax <= 50_000,
        -15_000 <= i - imin <= 15_000,
    ensures
        r == spec_range_map(i as int, imin as int, imax as int, omin as int, omax as int),
        (imin <= i <= imax || imax <= i <= imin) ==> (omin <= r <= omax || omax <= r <= omin),
{
    let mut invert = false;
    let ispan: i32;
    let ospan: i32;
    if omax < omin {
        ospan = omin - omax;
        invert = !invert;
    } else {
        ospan = omax - omin;
    }
    if imax < imin {
        ispan = imin - imax;
        invert = !invert;
    } else {
        ispan = imax - imin;
    }
    proof {
        assert(-1_500_000_000 <= (i - imin) as int * ospan as int <= 1_500_000_000)
            by (nonlinear_arith)
            requires -15_000 <= i - imin <= 15_000 && 0 <= ospan <= 100_000;
        assert forall|a: int, d: int| -1_500_000_000 <= a <= 1_500_000_000 && 1 <= d implies
            -1_500_000_000 <= #[trigger] spec_tdiv(a, d) <= 1_500_000_000 by {
            if a >= 0 {
                assert(a / d <= a) by (nonlinear_arith) requires a >= 0 && d >= 1;
                assert(a / d >= 0) by (nonlinear_arith) requires a >= 0 && d >= 1;
            } else {
                assert((-a) / d <= -a) by (nonlinear_arith) requires -a >= 0 && d >= 1;
                assert((-a) / d >= 0) by (nonlinear_arith) requires -a >= 0 && d >= 1;
            }
        }
    }
    proof {
        let d = (i - imin) as int;
        let os = ospan as int;
        let is_ = ispan as int;
        if -is_ <= d <= is_ {
            assert(-(is_ * os) <= d * os <= is_ * os) by (nonlinear_arith)
                requires -is_ <= d <= is_ && 0 <= os;
            assert(is_ * os / is_ == os) by (nonlinear_arith)
                requires 1 <= is_ && 0 <= os;
            if d >= 0 {
                assert(0 <= d * os) by (nonlinear_arith)
                    requires 0 <= d && 0 <= os;
                vstd::arithmetic::div_mod::lemma_div_is_ordered(d * os, is_ * os, is_);
                vstd::arithmetic::div_mod::lemma_div_is_ordered(0, d * os, is_);
                assert(0 <= spec_tdiv(d * os, is_) <= os);
            } else {
                assert(0 <= (-d) * os) by (nonlinear_arith)
                    requires d < 0 && 0 <= os;
                assert((-d) * os <= is_ * os) by (nonlinear_arith)
                    requires -is_ <= d < 0 && 0 <= os;
                vstd::arithmetic::div_mod::lemma_div_is_ordered((-d) * os, is_ * os, is_);
                vstd::arithmetic::div_mod::lemma_div_is_ordered(0, (-d) * os, is_);
                assert(-(d * os) == (-d) * os) by (nonlinear_arith);
                assert(-os <= spec_tdiv(d * os, is_) <= 0);
            }
        }
    }
    if invert {
        omin - ((i - imin) * ospan) / ispan
    } else {
        ((i - imin) * ospan) / ispan + omin
    }
}

/// Range map on unsigned values, for timer-driven fades.  The input must lie
/// inside its range; the output range may be inverted.
pub fn range_map_u32(i: u32, imin: u32, imax: u32, omin: u32, omax: u32) -> (r: u32)
    requires
        imin < imax,
        imin <= i <= imax,
        imax - imin <= 65_535,
        omin <= 65_535,
        omax <= 65_535,
    ensures
        r == spec_range_map(i as int, imin as int, imax as int, omin as int, omax as int),
        omin <= omax ==> omin <= r <= omax,
        omax < omin ==> omax <= r <= omin,
{
    let ispan = imax - imin;
    let inv = omax < omin;
    let ospan = if inv { omin - omax } else { omax - omin };
    proof {
        assert((i - imin) as int * ospan as int <= 65_535 * 65_535) by (nonlinear_arith)
            requires 0 <= (i - imin) as int <= 65_535 && 0 <= ospan as int <= 65_535;
        assert((i - imin) as int * ospan as int <= ispan as int * ospan as int)
            by (nonlinear_arith)
            requires 0 <= (i - imin) as int <= ispan as int && 0 <= ospan as int;
        assert(ispan as int * ospan as int / ispan as int == ospan as int)
            by (nonlinear_arith)
            requires 1 <= ispan as int;
        vstd::arithmetic::div_mod::lemma_div_is_ordered(
            (i - imin) as int * ospan as int,
            ispan as int * ospan as int,
            ispan as int,
        );
        assert(0 <= (i - imin) as int * ospan as int) by (nonlinear_arith)
            requires 0 <= (i - imin) as int && 0 <= ospan as int;
    }
    let scaled = ((i - imin) * ospan) / ispan;
    if inv {
        omin - scaled
    } else {
        omin + scaled
    }
}

/// Clamp `i` into `min..=max`.
pub fn constrain(i: i32, min: i32, max: i32) -> (r: i32)
    requires
        min <= max,
    ensures
        r == spec_constrain(i as int, min as int, max as int),
{
    if i < min {
        min
    } else if i > max {
        max
    } else {
        i
    }
}

/// Clamp of `i` into `min..=max`.
pub open spec fn spec_constrain(i: int, min: int, max: int) -> int {
    if i < min {
        min
    } else if i > max {
        max
    } else {
        i
    }
}

/// First quarter wave of an 8-bit sine, sampled at 64 points.
pub open spec fn spec_sin_table() -> Seq<u8> {
    seq![
        0u8, 0, 0, 0, 1, 1, 1, 2,
        2, 3, 4, 5, 5, 6, 7, 9,
        10, 11, 12, 14, 15, 17, 18, 20,
        21, 23, 25, 27, 29, 31, 33, 35,
        37, 40, 42, 44, 47, 49, 52, 54,
        57, 59, 62, 65, 67, 70, 73, 76,
        79, 82, 85, 88, 90, 93, 97, 100,
        103, 106, 109, 112, 115, 118, 121, 124,
    ]
}

/// 8-bit sine: a full period over the input byte, rising from 0, peaking at
/// 255 around the half turn, symmetric by reflection of the quarter-wave
/// table.
pub open spec fn spec_sinu8(n: u8) -> u8 {
    if n < 64 {
        spec_sin_table()[n as int]
    } else if n < 128 {
        (255 - spec_sin_table()[127 - n as int]) as u8
    } else if n < 192 {
        (255 - spec_sin_table()[n as int - 128]) as u8
    } else {
        spec_sin_table()[255 - n as int]
    }
}

/// Signed 8-bit sine: `spec_sinu8` recentered on zero.
pub open spec fn spec_sini8(n: i8) -> i8 {
    (spec_sinu8(((n as int) + 128) as u8) - 128) as i8
}

fn sin_table() -> (t: Vec<u8>)
    ensures
        t@ == spec_sin_table(),
{
    let t: Vec<u8> = vec![
        0u8, 0, 0, 0, 1, 1, 1, 2,
        2, 3, 4, 5, 5, 6, 7, 9,
        10, 11, 12, 14, 15, 17, 18, 20,
        21, 23, 25, 27, 29, 31, 33, 35,
        37, 40, 42, 44, 47, 49, 52, 54,
        57, 59, 62, 65, 67, 70, 73, 76,
        79, 82, 85, 88, 90, 93, 97, 100,
        103, 106, 109, 112, 115, 118, 121, 124,
    ];
    proof {
        assert_seqs_equal!(t@ == spec_sin_table());
    }
    t
}

/// Unsigned 8-bit sine lookup.
pub fn sinu8(n: u8) -> (r: u8)
    ensures
        r == spec_sinu8(n),
{
    let t = sin_table();
    if n < 64 {
        t[n as usize]
    } else if n < 128 {
        255 - t[127 - n as usize]
    } else if n < 192 {
        255 - t[n as usize - 128]
    } else {
        t[255 - n as usize]
    }
}

/// Signed 8-bit sine lookup.
pub fn sini8(n: i8) -> (r: i8)
    ensures
        r == spec_sini8(n),
{
    let nu = ((n as i32) + 128) as u8;
    let su8 = sinu8(nu);
    ((su8 as i32) - 128) as i8
}

} // verus!
