//! Volume arithmetic on fixed-point volumes.
//!
//! A percentage delta is read in units of `10^-7` percent, which are the
//! same size as volume units (`10^-9`). Through a route the delta moves
//! each channel of the `[0, 1]` range directly; through a node's own
//! property it is taken as a share of the node's `[min, max]` range.
use crate::fixed::ONE;
use vstd::prelude::*;

verus! {

pub open spec fn clamp(v: int, lo: int, hi: int) -> int {
    if v < lo {
        lo
    } else if v > hi {
        hi
    } else {
        v
    }
}

/// `a / b` rounded toward zero, for a positive `b`.
pub open spec fn div_trunc(a: int, b: int) -> int {
    if a >= 0 {
        a / b
    } else {
        -((-a) / b)
    }
}

/// `a / b` rounded to the nearest integer, halves upward, for a positive `b`.
pub open spec fn div_round(a: int, b: int) -> int {
    (2 * a + b) / (2 * b)
}

/// Each channel moved by `delta` volume units and held within `[0, 1]`.
pub open spec fn moved_channels(vols: Seq<i64>, delta: int) -> Seq<i64> {
    Seq::new(vols.len(), |i: int| clamp(vols[i] + delta, 0, ONE as int) as i64)
}

/// The change that `delta` (in units of `10^-7` percent) makes to a volume
/// whose range is `[min, max]`: that share of `max - min`, cut toward zero.
pub open spec fn range_increment(delta: int, min: int, max: int) -> int {
    div_trunc(delta * (max - min), ONE as int)
}

/// A node's volume after `delta`, held within `[min, max]`.
pub open spec fn moved_volume(volume: int, delta: int, min: int, max: int) -> int {
    clamp(volume + range_increment(delta, min, max), min, max)
}

/// Moves every channel by `delta` and holds it within `[0, 1]`.
pub fn move_channels(vols: &Vec<i64>, delta: i64) -> (r: Vec<i64>)
    ensures
        r@ == moved_channels(vols@, delta as int),
{
    let mut r: Vec<i64> = Vec::new();
    let mut i: usize = 0;
    while i < vols.len()
        invariant
            i <= vols@.len(),
            r@.len() == i,
            forall|k: int| 0 <= k < i ==> r@[k] == clamp(vols@[k] + delta, 0, ONE as int),
        decreases vols.len() - i,
    {
        let v: i128 = vols[i] as i128 + delta as i128;
        let c: i64 = if v < 0 {
            0
        } else if v > ONE as i128 {
            ONE
        } else {
            v as i64
        };
        r.push(c);
        i = i + 1;
    }
    assert(r@ =~= moved_channels(vols@, delta as int));
    r
}

/// A node's volume moved by `delta` within its range `[min, max]`.
pub fn move_volume(volume: i64, delta: i64, min: i64, max: i64) -> (r: i64)
    requires
        min < max,
    ensures
        r == moved_volume(volume as int, delta as int, min as int, max as int),
{
    let range: i128 = max as i128 - min as i128;
    proof {
        assert(0 < range < 0x1_0000_0000_0000_0000);
        assert(-0x8000_0000_0000_0000 <= delta < 0x8000_0000_0000_0000);
        assert(delta * range < 0x8000_0000_0000_0000 * 0x1_0000_0000_0000_0000) by (nonlinear_arith)
            requires
                0 < range < 0x1_0000_0000_0000_0000,
                -0x8000_0000_0000_0000 <= delta < 0x8000_0000_0000_0000,
        ;
        assert(delta * range > -0x8000_0000_0000_0000 * 0x1_0000_0000_0000_0000) by (nonlinear_arith)
            requires
                0 < range < 0x1_0000_0000_0000_0000,
                -0x8000_0000_0000_0000 <= delta < 0x8000_0000_0000_0000,
        ;
    }
    let product: i128 = delta as i128 * range;
    let inc: i128 = if product >= 0 {
        product / ONE as i128
    } else {
        -((-product) / ONE as i128)
    };
    proof {
        assert(-0x8000_0000_0000_0000 * 0x1_0000_0000_0000_0000 / 1_000_000_000 < inc);
    }
    let v: i128 = volume as i128 + inc;
    if v < min as i128 {
        min
    } else if v > max as i128 {
        max
    } else {
        v as i64
    }
}

} // verus!
