//! Primitive-to-path conversion: rewrites `circle`, `rect` and `polygon`
//! attribute sets into equivalent path-data strings, so that every shape
//! funnels through the one path grammar.

use vstd::prelude::*;
use crate::float_bits::{
    add_f32, sub_f32, mul_f32, fmt_f32, spec_add_f32, spec_sub_f32, spec_mul_f32, spec_fmt_f32,
};

verus! {

/// Bit pattern of `0.5522847498f32`, the control-point ratio that makes
/// four cubic segments approximate a circle.
pub const CIRCLE_K_BITS: u32 = 0x3F0D_6289;

/// The text of one coordinate pair: the two numbers with a comma between.
pub open spec fn spec_pair(x: u32, y: u32) -> Seq<char> {
    spec_fmt_f32(x) + ","@ + spec_fmt_f32(y)
}

/// The path-data string of a circle: four cubic segments, starting and
/// ending at `(cx + r, cy)`, closed.
pub open spec fn spec_circle_path(cx: u32, cy: u32, r: u32) -> Seq<char> {
    let kr = spec_mul_f32(CIRCLE_K_BITS, r);
    let east = spec_add_f32(cx, r);
    let west = spec_sub_f32(cx, r);
    let south = spec_add_f32(cy, r);
    let north = spec_sub_f32(cy, r);
    let xkp = spec_add_f32(cx, kr);
    let xkm = spec_sub_f32(cx, kr);
    let ykp = spec_add_f32(cy, kr);
    let ykm = spec_sub_f32(cy, kr);
    "M"@ + spec_pair(east, cy) + " C"@ + spec_pair(east, ykp) + " "@ + spec_pair(xkp, south)
        + " "@ + spec_pair(cx, south) + " C"@ + spec_pair(xkm, south) + " "@ + spec_pair(
        west,
        ykp,
    ) + " "@ + spec_pair(west, cy) + " C"@ + spec_pair(west, ykm) + " "@ + spec_pair(xkm, north)
        + " "@ + spec_pair(cx, north) + " C"@ + spec_pair(xkp, north) + " "@ + spec_pair(
        east,
        ykm,
    ) + " "@ + spec_pair(east, cy) + " Z"@
}

/// The path-data string of a rectangle: exactly four line segments,
/// clockwise from `(x, y)` and returning to it, plus close.
pub open spec fn spec_rect_path(x: u32, y: u32, w: u32, h: u32) -> Seq<char> {
    let xe = spec_add_f32(x, w);
    let yb = spec_add_f32(y, h);
    "M"@ + spec_pair(x, y) + " L"@ + spec_pair(xe, y) + " L"@ + spec_pair(xe, yb) + " L"@
        + spec_pair(x, yb) + " L"@ + spec_pair(x, y) + " Z"@
}

/// The line targets of a polygon from coordinate position `i` on; a
/// trailing coordinate without a partner is dropped.
pub open spec fn spec_polygon_tail(ps: Seq<u32>, i: int) -> Seq<char>
    decreases ps.len() - i,
{
    if i < 0 || i + 1 >= ps.len() {
        seq![]
    } else {
        " L"@ + spec_pair(ps[i], ps[i + 1]) + spec_polygon_tail(ps, i + 2)
    }
}

/// The path-data string of a polygon with at least two coordinate pairs:
/// a move to the first point, a line per remaining pair, closed.
pub open spec fn spec_polygon_path(ps: Seq<u32>) -> Seq<char> {
    "M"@ + spec_pair(ps[0], ps[1]) + spec_polygon_tail(ps, 2) + " Z"@
}

/// Appends one coordinate pair to the string being built.
fn push_pair(d: &mut String, x: u32, y: u32)
    ensures
        (*final(d))@ == (*old(d))@ + spec_pair(x, y),
{
    let fx = fmt_f32(x);
    d.append(fx.as_str());
    d.append(",");
    let fy = fmt_f32(y);
    d.append(fy.as_str());
    proof {
        assert((*d)@ =~= (*old(d))@ + spec_pair(x, y));
    }
}

/// Synthesizes the path-data string of a circle; see [`spec_circle_path`].
pub fn circle_to_path(cx: u32, cy: u32, r: u32) -> (d: String)
    ensures
        d@ == spec_circle_path(cx, cy, r),
{
    let kr = mul_f32(CIRCLE_K_BITS, r);
    let east = add_f32(cx, r);
    let west = sub_f32(cx, r);
    let south = add_f32(cy, r);
    let north = sub_f32(cy, r);
    let xkp = add_f32(cx, kr);
    let xkm = sub_f32(cx, kr);
    let ykp = add_f32(cy, kr);
    let ykm = sub_f32(cy, kr);

    let mut d = String::new();
    d.append("M");
    push_pair(&mut d, east, cy);
    d.append(" C");
    push_pair(&mut d, east, ykp);
    d.append(" ");
    push_pair(&mut d, xkp, south);
    d.append(" ");
    push_pair(&mut d, cx, south);
    d.append(" C");
    push_pair(&mut d, xkm, south);
    d.append(" ");
    push_pair(&mut d, west, ykp);
    d.append(" ");
    push_pair(&mut d, west, cy);
    d.append(" C");
    push_pair(&mut d, west, ykm);
    d.append(" ");
    push_pair(&mut d, xkm, north);
    d.append(" ");
    push_pair(&mut d, cx, north);
    d.append(" C");
    push_pair(&mut d, xkp, north);
    d.append(" ");
    push_pair(&mut d, east, ykm);
    d.append(" ");
    push_pair(&mut d, east, cy);
    d.append(" Z");
    proof {
        assert(d@ =~= spec_circle_path(cx, cy, r));
    }
    d
}

/// Synthesizes the path-data string of a rectangle; see [`spec_rect_path`].
pub fn rect_to_path(x: u32, y: u32, w: u32, h: u32) -> (d: String)
    ensures
        d@ == spec_rect_path(x, y, w, h),
{
    let xe = add_f32(x, w);
    let yb = add_f32(y, h);
    let mut d = String::new();
    d.append("M");
    push_pair(&mut d, x, y);
    d.append(" L");
    push_pair(&mut d, xe, y);
    d.append(" L");
    push_pair(&mut d, xe, yb);
    d.append(" L");
    push_pair(&mut d, x, yb);
    d.append(" L");
    push_pair(&mut d, x, y);
    d.append(" Z");
    proof {
        assert(d@ =~= spec_rect_path(x, y, w, h));
    }
    d
}

/// Synthesizes the path-data string of a polygon, or nothing when fewer
/// than two coordinate pairs are given; see [`spec_polygon_path`].
pub fn polygon_to_path(points: &Vec<u32>) -> (d: Option<String>)
    ensures
        points@.len() >= 4 <==> d is Some,
        points@.len() >= 4 ==> d->Some_0@ == spec_polygon_path(points@),
{
    let n = points.len();
    if n < 4 {
        return None;
    }
    let mut d = String::new();
    d.append("M");
    push_pair(&mut d, points[0], points[1]);
    let ghost head = d@;

    let mut i: usize = 2;
    while i < n - 1
        invariant
            n == points@.len(),
            4 <= n,
            2 <= i <= n,
            d@ + spec_polygon_tail(points@, i as int) == head + spec_polygon_tail(points@, 2),
        decreases n - i,
    {
        let ghost d0 = d@;
        let ghost i0 = i as int;
        d.append(" L");
        push_pair(&mut d, points[i], points[i + 1]);
        i += 2;
        proof {
            assert(spec_polygon_tail(points@, i0) == " L"@ + spec_pair(
                points@[i0],
                points@[i0 + 1],
            ) + spec_polygon_tail(points@, i as int));
            assert(d@ + spec_polygon_tail(points@, i as int) =~= d0 + spec_polygon_tail(
                points@,
                i0,
            ));
        }
    }
    proof {
        assert(spec_polygon_tail(points@, i as int) =~= Seq::<char>::empty());
        assert(d@ =~= head + spec_polygon_tail(points@, 2));
    }
    d.append(" Z");
    proof {
        assert(d@ =~= spec_polygon_path(points@));
    }
    Some(d)
}

} // verus!
