use vstd::prelude::*;
use vstd::arithmetic::div_mod::{
    lemma_div_is_ordered, lemma_div_multiples_vanish, lemma_fundamental_div_mod,
};
use vstd::arithmetic::mul::lemma_mul_inequality;

use crate::errors::Error;
use crate::traj::{fits, Trajectory, COORD_LIMIT};

verus! {

/// Value of linear interpolation between `(t1, p1)` and `(t2, p2)` at time
/// `t`, over the fixed-point integers.
///
/// The mathematical fraction `(t - t1) / (t2 - t1)` is applied exactly and
/// the result is rounded toward `p1`: the quotient is taken on the
/// non-negative product `(t - t1) * |p2 - p1|`, so no rounding occurs at
/// the bracket ends or, for an interval and offset of even parity, at the
/// midpoint.
pub open spec fn interp_axis(t1: int, p1: int, t2: int, p2: int, t: int) -> int
    recommends
        t1 < t2,
        t1 <= t <= t2,
{
    if p2 >= p1 {
        p1 + ((t - t1) * (p2 - p1)) / (t2 - t1)
    } else {
        p1 - ((t - t1) * (p1 - p2)) / (t2 - t1)
    }
}

/// Quotient step shared by both signs of the position offset: computes
/// `(dt * m) / den` and bounds it by `m`.
fn interp_quotient(dt: u64, m: u64, den: u64) -> (q: u64)
    requires
        0 < den,
        dt <= den,
        den <= 2 * COORD_LIMIT as u64,
        m <= 2 * COORD_LIMIT as u64,
    ensures
        q as int == (dt as int * m as int) / den as int,
        q <= m,
{
    proof {
        assert((dt as int) * (m as int) <= (2 * COORD_LIMIT as int) * (2 * COORD_LIMIT as int))
            by (nonlinear_arith)
            requires
                0 <= dt as int <= 2 * COORD_LIMIT as int,
                0 <= m as int <= 2 * COORD_LIMIT as int,
        ;
    }
    let wide: u128 = (dt as u128) * (m as u128) / (den as u128);
    proof {
        lemma_mul_inequality(dt as int, den as int, m as int);
        lemma_div_is_ordered(dt as int * m as int, den as int * m as int, den as int);
        lemma_div_multiples_vanish(m as int, den as int);
        lemma_div_is_nonneg(dt as int * m as int, den as int);
    }
    wide as u64
}

/// The quotient of non-negative operands is non-negative.
proof fn lemma_div_is_nonneg(x: int, d: int)
    requires
        0 <= x,
        0 < d,
    ensures
        0 <= x / d,
{
    lemma_div_is_ordered(0, x, d);
    lemma_div_multiples_vanish(0, d);
}

/// Interpolates one coordinate axis. The result is exactly
/// [`interp_axis`] and always lies between `p1` and `p2`.
pub(crate) fn interpolate_axis(t1: i64, p1: i64, t2: i64, p2: i64, t: i64) -> (r: i64)
    requires
        fits(t1 as int),
        fits(p1 as int),
        fits(t2 as int),
        fits(p2 as int),
        fits(t as int),
        t1 < t2,
        t1 <= t <= t2,
    ensures
        r as int == interp_axis(t1 as int, p1 as int, t2 as int, p2 as int, t as int),
        p1 <= p2 ==> p1 <= r <= p2,
        p2 <= p1 ==> p2 <= r <= p1,
{
    let dt: u64 = (t - t1) as u64;
    let den: u64 = (t2 - t1) as u64;
    if p2 >= p1 {
        let m: u64 = (p2 - p1) as u64;
        let q: u64 = interp_quotient(dt, m, den);
        p1 + (q as i64)
    } else {
        let m: u64 = (p1 - p2) as u64;
        let q: u64 = interp_quotient(dt, m, den);
        p1 - (q as i64)
    }
}

/// Resolves the platform position bracketed by two pose samples at time
/// `p_time`, exactly as the synchronization pass does: linear
/// interpolation per axis, refused as `DegeneratePoseInterval` when the
/// two samples share a timestamp (the fraction would be a division by
/// zero).
pub fn interpolate(i_trajectory: &Trajectory, f_trajectory: &Trajectory, p_time: i64) -> (r:
    Result<(i64, i64, i64), Error>)
    requires
        i_trajectory.wf(),
        f_trajectory.wf(),
        fits(p_time as int),
        i_trajectory.time <= p_time <= f_trajectory.time,
    ensures
        r is Err <==> i_trajectory.time == f_trajectory.time,
        r is Err ==> r == Err::<(i64, i64, i64), Error>(Error::DegeneratePoseInterval),
        r matches Ok(pos) ==> {
            &&& pos.0 as int == interp_axis(
                i_trajectory.time as int,
                i_trajectory.x as int,
                f_trajectory.time as int,
                f_trajectory.x as int,
                p_time as int,
            )
            &&& pos.1 as int == interp_axis(
                i_trajectory.time as int,
                i_trajectory.y as int,
                f_trajectory.time as int,
                f_trajectory.y as int,
                p_time as int,
            )
            &&& pos.2 as int == interp_axis(
                i_trajectory.time as int,
                i_trajectory.z as int,
                f_trajectory.time as int,
                f_trajectory.z as int,
                p_time as int,
            )
        },
{
    if i_trajectory.time == f_trajectory.time {
        return Err(Error::DegeneratePoseInterval);
    }
    let x_s = interpolate_axis(
        i_trajectory.time,
        i_trajectory.x,
        f_trajectory.time,
        f_trajectory.x,
        p_time,
    );
    let y_s = interpolate_axis(
        i_trajectory.time,
        i_trajectory.y,
        f_trajectory.time,
        f_trajectory.y,
        p_time,
    );
    let z_s = interpolate_axis(
        i_trajectory.time,
        i_trajectory.z,
        f_trajectory.time,
        f_trajectory.z,
        p_time,
    );
    Ok((x_s, y_s, z_s))
}

/// The interpolated value always lies between the two bracket positions.
pub proof fn lemma_interp_axis_bounds(t1: int, p1: int, t2: int, p2: int, t: int)
    requires
        t1 < t2,
        t1 <= t <= t2,
    ensures
        p1 <= p2 ==> p1 <= interp_axis(t1, p1, t2, p2, t) <= p2,
        p2 <= p1 ==> p2 <= interp_axis(t1, p1, t2, p2, t) <= p1,
{
    let dt = t - t1;
    let den = t2 - t1;
    if p2 >= p1 {
        let m = p2 - p1;
        lemma_mul_inequality(dt, den, m);
        lemma_div_is_ordered(dt * m, den * m, den);
        lemma_div_multiples_vanish(m, den);
        lemma_div_is_nonneg(dt * m, den);
    } else {
        let m = p1 - p2;
        lemma_mul_inequality(dt, den, m);
        lemma_div_is_ordered(dt * m, den * m, den);
        lemma_div_multiples_vanish(m, den);
        lemma_div_is_nonneg(dt * m, den);
    }
}

/// Interpolating at the start of the bracket yields the first position
/// exactly.
pub proof fn lemma_interp_at_start(t1: int, p1: int, t2: int, p2: int)
    requires
        t1 < t2,
    ensures
        interp_axis(t1, p1, t2, p2, t1) == p1,
{
    lemma_div_multiples_vanish(0, t2 - t1);
}

/// Interpolating at the end of the bracket yields the second position
/// exactly.
pub proof fn lemma_interp_at_end(t1: int, p1: int, t2: int, p2: int)
    requires
        t1 < t2,
    ensures
        interp_axis(t1, p1, t2, p2, t2) == p2,
{
    if p2 >= p1 {
        lemma_div_multiples_vanish(p2 - p1, t2 - t1);
    } else {
        lemma_div_multiples_vanish(p1 - p2, t2 - t1);
    }
}

/// Interpolating at the midpoint of the bracket yields the arithmetic
/// midpoint of the two positions, exactly, whenever both the interval and
/// the position sum are even (otherwise no integer midpoint exists).
pub proof fn lemma_interp_midpoint(t1: int, p1: int, t2: int, p2: int)
    requires
        t1 < t2,
        (t2 - t1) % 2 == 0,
        (p1 + p2) % 2 == 0,
    ensures
        interp_axis(t1, p1, t2, p2, (t1 + t2) / 2) == (p1 + p2) / 2,
{
    let den = t2 - t1;
    let t = (t1 + t2) / 2;
    lemma_fundamental_div_mod(t1 + t2, 2);
    lemma_fundamental_div_mod(den, 2);
    lemma_fundamental_div_mod(p1 + p2, 2);
    assert(t - t1 == den / 2);
    if p2 >= p1 {
        let m = p2 - p1;
        let h = (p1 + p2) / 2 - p1;
        assert(m == 2 * h);
        assert((den / 2) * m == den * h) by (nonlinear_arith)
            requires
                m == 2 * h,
                den == 2 * (den / 2),
        ;
        lemma_div_multiples_vanish(h, den);
    } else {
        let m = p1 - p2;
        let h = p1 - (p1 + p2) / 2;
        assert(m == 2 * h);
        assert((den / 2) * m == den * h) by (nonlinear_arith)
            requires
                m == 2 * h,
                den == 2 * (den / 2),
        ;
        lemma_div_multiples_vanish(h, den);
    }
}

} // verus!
