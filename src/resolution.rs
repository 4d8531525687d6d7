//! The pixel density at which a page is rasterized.
//!
//! Lengths, densities and resolutions are fixed-point integers in thousandths:
//! a page edge of `1_000` is one point, a density of `1_000` is one pixel per
//! point, and a desired resolution of `1_000` asks for one pixel along the
//! side of a square page's area.
use vstd::prelude::*;

use crate::diagnostic::{decimal, digit_char, write_decimal};

verus! {

/// Largest page edge that may be rasterized: 30000 pt.
pub const MAX_SIZE: u64 = 30_000_000;

/// Highest density ever used: 30 pixels per point.
pub const MAX_PIXELS_PER_POINT: u64 = 30_000;

/// Resolution used when the caller asks for none: 3000.
pub const DESIRED_RESOLUTION: u64 = 3_000_000;

/// An axis of a page.
#[derive(Clone, Copy, Debug, PartialEq, Eq, Structural)]
pub enum Axis {
    X,
    Y,
}

/// The physical size of a page, in thousandths of a point.
#[derive(Clone, Copy, Debug, PartialEq, Eq, Structural)]
pub struct Size {
    pub x: u64,
    pub y: u64,
}

/// A page edge longer than `MAX_SIZE`: the page is not rasterized.
#[derive(Clone, Copy, Debug, PartialEq, Eq, Structural)]
pub struct TooBig {
    /// The edge's length, in thousandths of a point.
    pub size: u64,
    pub axis: Axis,
}

/// At density `d`, the page of area `area` gets at least as many pixels along
/// the side of its area as `desired` asks for: `d / 1000 >= (desired / 1000) / sqrt(area / 1000^2)`.
pub open spec fn reaches(d: int, area: int, desired: int) -> bool {
    d * d * area >= (1000 * desired) * (1000 * desired)
}

/// `d` is the density for a page of area `area`: the desired resolution over
/// the square root of the area, rounded up to a thousandth and capped at
/// `MAX_PIXELS_PER_POINT`.
pub open spec fn is_density(d: int, area: int, desired: int) -> bool {
    &&& 0 <= d <= MAX_PIXELS_PER_POINT
    &&& (d == MAX_PIXELS_PER_POINT || reaches(d, area, desired))
    &&& forall|e: int| 0 <= e < d ==> !reaches(e, area, desired)
}

/// What `determine_pixels_per_point` returns for `size` and `desired`, given
/// the density that the page's area calls for.
pub open spec fn density_result(size: Size, desired: u64, r: Result<u64, TooBig>) -> bool {
    if size.x > MAX_SIZE {
        r == Err::<u64, TooBig>(TooBig { size: size.x, axis: Axis::X })
    } else if size.y > MAX_SIZE {
        r == Err::<u64, TooBig>(TooBig { size: size.y, axis: Axis::Y })
    } else {
        r is Ok && is_density(r->Ok_0 as int, size.x * size.y, desired as int)
    }
}

proof fn lemma_reaches_monotone(d: int, e: int, area: int, desired: int)
    requires
        0 <= d <= e,
        0 <= area,
        reaches(d, area, desired),
    ensures
        reaches(e, area, desired),
{
    assert(d * d * area <= e * e * area) by (nonlinear_arith)
        requires
            0 <= d <= e,
            0 <= area,
    ;
}

fn reaches_exec(d: u64, area: u64, target: u128) -> (r: bool)
    requires
        d <= MAX_PIXELS_PER_POINT,
        area <= MAX_SIZE * MAX_SIZE,
        target < 1_000_000_000_000,
    ensures
        r == (d * d * area >= target * target),
{
    assert(d * d <= 900_000_000) by (nonlinear_arith)
        requires
            d <= 30_000,
    ;
    let dd: u128 = d as u128 * d as u128;
    assert(dd * area <= 900_000_000 * 900_000_000_000_000) by (nonlinear_arith)
        requires
            dd <= 900_000_000,
            area <= 900_000_000_000_000,
    ;
    assert(target * target < 1_000_000_000_000 * 1_000_000_000_000) by (nonlinear_arith)
        requires
            0 <= target < 1_000_000_000_000,
    ;
    dd * (area as u128) >= target * target
}

/// The density at which a page of size `size` is rasterized for the desired
/// resolution `desired`, or the axis on which the page is too big. The X axis
/// is checked first.
pub fn determine_pixels_per_point(size: Size, desired: u64) -> (r: Result<u64, TooBig>)
    ensures
        density_result(size, desired, r),
{
    if size.x > MAX_SIZE {
        return Err(TooBig { size: size.x, axis: Axis::X });
    }
    if size.y > MAX_SIZE {
        return Err(TooBig { size: size.y, axis: Axis::Y });
    }
    assert(size.x * size.y <= 900_000_000_000_000) by (nonlinear_arith)
        requires
            size.x <= 30_000_000,
            size.y <= 30_000_000,
    ;
    let area: u64 = size.x * size.y;
    if desired >= 1_000_000_000 {
        proof {
            assert forall|e: int| 0 <= e < MAX_PIXELS_PER_POINT implies !reaches(
                e,
                area as int,
                desired as int,
            ) by {
                assert(e * e * area < (1000 * desired) * (1000 * desired)) by (nonlinear_arith)
                    requires
                        0 <= e < 30_000,
                        0 <= area <= 900_000_000_000_000,
                        desired >= 1_000_000_000,
                ;
            }
        }
        return Ok(MAX_PIXELS_PER_POINT);
    }
    let target: u128 = 1000 * desired as u128;
    let mut lo: u64 = 0;
    let mut hi: u64 = MAX_PIXELS_PER_POINT;
    while lo < hi
        invariant
            lo <= hi <= MAX_PIXELS_PER_POINT,
            area == size.x * size.y,
            area <= MAX_SIZE * MAX_SIZE,
            target == 1000 * desired,
            target < 1_000_000_000_000,
            hi == MAX_PIXELS_PER_POINT || reaches(hi as int, area as int, desired as int),
            forall|e: int| 0 <= e < lo ==> !reaches(e, area as int, desired as int),
        decreases hi - lo,
    {
        let mid: u64 = lo + (hi - lo) / 2;
        if reaches_exec(mid, area, target) {
            hi = mid;
        } else {
            proof {
                assert forall|e: int| 0 <= e <= mid implies !reaches(
                    e,
                    area as int,
                    desired as int,
                ) by {
                    if reaches(e, area as int, desired as int) {
                        lemma_reaches_monotone(e, mid as int, area as int, desired as int);
                    }
                }
            }
            lo = mid + 1;
        }
    }
    Ok(lo)
}

/// Every density within the cap that the page's area calls for is positive
/// when the desired resolution is, and never exceeds `MAX_PIXELS_PER_POINT`.
pub proof fn lemma_density_in_range(size: Size, desired: u64, r: Result<u64, TooBig>)
    requires
        size.x <= MAX_SIZE,
        size.y <= MAX_SIZE,
        desired > 0,
        density_result(size, desired, r),
    ensures
        r is Ok,
        0 < r->Ok_0 <= MAX_PIXELS_PER_POINT,
{
    let area = size.x * size.y;
    assert(!reaches(0, area, desired as int)) by (nonlinear_arith)
        requires
            desired > 0,
    ;
}

/// The calculator is a function of its inputs: two results that both meet
/// its contract for the same size and resolution are the same.
pub proof fn lemma_density_deterministic(
    size: Size,
    desired: u64,
    r1: Result<u64, TooBig>,
    r2: Result<u64, TooBig>,
)
    requires
        density_result(size, desired, r1),
        density_result(size, desired, r2),
    ensures
        r1 == r2,
{
    if size.x <= MAX_SIZE && size.y <= MAX_SIZE {
        let d1 = r1->Ok_0 as int;
        let d2 = r2->Ok_0 as int;
        let area = size.x * size.y;
        if d1 < d2 {
            assert(!reaches(d1, area, desired as int));
        } else if d2 < d1 {
            assert(!reaches(d2, area, desired as int));
        }
    }
}

/// The digits after the point of the fraction `f` thousandths, `0 < f < 1000`,
/// without trailing zeros.
pub open spec fn fraction_digits(f: nat) -> Seq<char> {
    if f % 100 == 0 {
        seq![digit_char(f / 100)]
    } else if f % 10 == 0 {
        seq![digit_char(f / 100), digit_char(f / 10 % 10)]
    } else {
        seq![digit_char(f / 100), digit_char(f / 10 % 10), digit_char(f % 10)]
    }
}

/// `n` thousandths written in decimal, with a fractional part only where it
/// is not zero.
pub open spec fn thousandths(n: nat) -> Seq<char> {
    if n % 1000 == 0 {
        decimal(n / 1000)
    } else {
        decimal(n / 1000) + "."@ + fraction_digits(n % 1000)
    }
}

pub open spec fn axis_text(a: Axis) -> Seq<char> {
    match a {
        Axis::X => "X"@,
        Axis::Y => "Y"@,
    }
}

/// The message that tells of a page too big to rasterize.
pub open spec fn too_big_message(e: TooBig) -> Seq<char> {
    "rendered output was too big: the "@ + axis_text(e.axis) + " axis was "@ + thousandths(
        e.size as nat,
    ) + " pt but the maximum is "@ + thousandths(MAX_SIZE as nat)
}

/// Appends `n` thousandths in decimal to `out`.
fn write_thousandths(out: &mut String, n: u64)
    ensures
        final(out)@ == old(out)@ + thousandths(n as nat),
{
    write_decimal(out, (n / 1000) as u128);
    let f = n % 1000;
    if f != 0 {
        out.append(".");
        write_decimal(out, (f / 100) as u128);
        if f % 100 != 0 {
            write_decimal(out, (f / 10 % 10) as u128);
            if f % 10 != 0 {
                write_decimal(out, (f % 10) as u128);
            }
        }
    }
    proof {
        assert(final(out)@ =~= old(out)@ + thousandths(n as nat));
    }
}

/// The message that tells of a page too big to rasterize.
pub fn to_string(v: TooBig) -> (r: String)
    ensures
        r@ == too_big_message(v),
{
    let mut r = String::from_str("rendered output was too big: the ");
    match v.axis {
        Axis::X => r.append("X"),
        Axis::Y => r.append("Y"),
    }
    r.append(" axis was ");
    write_thousandths(&mut r, v.size);
    r.append(" pt but the maximum is ");
    write_thousandths(&mut r, MAX_SIZE);
    proof {
        assert(r@ =~= too_big_message(v));
    }
    r
}

} // verus!
