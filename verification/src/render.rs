//! The drawing plan for one frame: the recorded paths are scaled onto a
//! square canvas as integer pixel shapes — the true path as lines in one
//! color, the estimated path as lines in a second, each measurement as a
//! dot in a third, over a white background, with the vertical axis flipped
//! so the origin sits at the canvas's bottom-left.

use vstd::prelude::*;

use crate::rat::{fits_i128, Rat, SpecRat};

verus! {

#[derive(Clone, Copy, Debug, PartialEq, Eq, Structural)]
pub enum Color {
    White,
    Red,
    Green,
    Blue,
}

/// One drawing primitive, in pixel coordinates.
#[derive(Clone, Copy, Debug, PartialEq, Eq, Structural)]
pub enum Shape {
    Rect { x: i128, y: i128, width: i128, height: i128, fill: Color },
    Line { x1: i128, y1: i128, x2: i128, y2: i128, stroke: Color, stroke_width: i128 },
    Circle { cx: i128, cy: i128, radius: i128, fill: Color },
}

/// Division rounded toward zero, for a positive divisor.
pub open spec fn div_trunc(a: int, b: int) -> int {
    if a >= 0 {
        a / b
    } else {
        -((-a) / b)
    }
}

/// The pixel range coordinates are clamped to: far beyond any canvas, so
/// clamping never moves a visible point, and scaling stays total.
pub const PX_LIMIT: i128 = 1_000_000_000;

/// Whether a coordinate's scaling can be carried out in machine words.
pub open spec fn px_fits(v: SpecRat, scale: SpecRat) -> bool {
    fits_i128(v.n * scale.n) && fits_i128(v.d * scale.d)
}

/// A coordinate scaled to pixels: `v * scale`, rounded toward zero and
/// clamped to the pixel range. Clamping never moves a point that could sit
/// on a canvas.
pub open spec fn spec_px(v: SpecRat, scale: SpecRat) -> int {
    let raw = div_trunc(v.n * scale.n, v.d * scale.d);
    if raw > PX_LIMIT as int {
        PX_LIMIT as int
    } else if raw < -(PX_LIMIT as int) {
        -(PX_LIMIT as int)
    } else {
        raw
    }
}

/// A vertical coordinate scaled to pixels and flipped: the canvas origin is
/// top-left, the data origin bottom-left.
pub open spec fn spec_py(size: int, v: SpecRat, scale: SpecRat) -> int {
    size - spec_px(v, scale)
}

proof fn lemma_div_trunc_bounds(a: int, b: int)
    by (nonlinear_arith)
    requires
        b > 0,
    ensures
        a >= 0 ==> 0 <= a / b <= a,
        a < 0 ==> a <= -((-a) / b) <= 0,
        0int / b == 0,
{
}

fn div_trunc_i128(a: i128, b: i128) -> (r: i128)
    requires
        b > 0,
    ensures
        r == div_trunc(a as int, b as int),
        a >= 0 ==> 0 <= r <= a,
        a < 0 ==> a <= r <= 0,
{
    proof {
        lemma_div_trunc_bounds(a as int, b as int);
    }
    match a.checked_div(b) {
        Some(q) => q,
        None => {
            proof {
                assert(false);
            }
            0
        },
    }
}

/// The scaled horizontal pixel of a coordinate.
pub fn pixel(v: &Rat, scale: &Rat) -> (r: i128)
    requires
        v@.wf(),
        scale@.wf(),
        px_fits(v@, scale@),
    ensures
        r == spec_px(v@, scale@),
        -PX_LIMIT <= r <= PX_LIMIT,
{
    let n = match v.num.checked_mul(scale.num) {
        Some(t) => t,
        None => {
            proof {
                assert(false);
            }
            0
        },
    };
    let d = match v.den.checked_mul(scale.den) {
        Some(t) => t,
        None => {
            proof {
                assert(false);
            }
            0
        },
    };
    proof {
        crate::rat::lemma_pos_mul_pos(v.den as int, scale.den as int);
    }
    let raw = div_trunc_i128(n, d);
    if raw > PX_LIMIT {
        PX_LIMIT
    } else if raw < -PX_LIMIT {
        -PX_LIMIT
    } else {
        raw
    }
}

/// The views of a sequence of coordinate pairs.
pub open spec fn pts_views(s: Seq<(Rat, Rat)>) -> Seq<(SpecRat, SpecRat)> {
    s.map_values(|p: (Rat, Rat)| (p.0@, p.1@))
}

/// All coordinates in the sequence are well-formed rationals.
pub open spec fn pts_wf(s: Seq<(Rat, Rat)>) -> bool {
    forall|i: int| 0 <= i < s.len() ==> (#[trigger] s[i]).0@.wf() && s[i].1@.wf()
}

/// Every coordinate in the sequence can be scaled in machine words.
pub open spec fn pts_scalable(s: Seq<(Rat, Rat)>, scale: SpecRat) -> bool {
    forall|i: int|
        0 <= i < s.len() ==> px_fits((#[trigger] s[i]).0@, scale) && px_fits(s[i].1@, scale)
}

/// The connected line segments of a path: one per adjacent pair of points.
pub open spec fn spec_line_shapes(
    pts: Seq<(SpecRat, SpecRat)>,
    size: int,
    scale: SpecRat,
    stroke: Color,
) -> Seq<Shape> {
    Seq::new(
        if pts.len() == 0 {
            0
        } else {
            (pts.len() - 1) as nat
        },
        |i: int|
            Shape::Line {
                x1: spec_px(pts[i].0, scale) as i128,
                y1: spec_py(size, pts[i].1, scale) as i128,
                x2: spec_px(pts[i + 1].0, scale) as i128,
                y2: spec_py(size, pts[i + 1].1, scale) as i128,
                stroke,
                stroke_width: 2,
            },
    )
}

/// One dot per recorded point.
pub open spec fn spec_circle_shapes(
    pts: Seq<(SpecRat, SpecRat)>,
    size: int,
    scale: SpecRat,
    fill: Color,
) -> Seq<Shape> {
    Seq::new(
        pts.len(),
        |i: int|
            Shape::Circle {
                cx: spec_px(pts[i].0, scale) as i128,
                cy: spec_py(size, pts[i].1, scale) as i128,
                radius: 2,
                fill,
            },
    )
}

/// The full drawing plan of one frame: white background, true path in red,
/// estimated path in green, measurements as blue dots.
pub open spec fn spec_render(
    true_pts: Seq<(SpecRat, SpecRat)>,
    measured_pts: Seq<(SpecRat, SpecRat)>,
    estimated_pts: Seq<(SpecRat, SpecRat)>,
    size: int,
    scale: SpecRat,
) -> Seq<Shape> {
    seq![
        Shape::Rect {
            x: 0,
            y: 0,
            width: size as i128,
            height: size as i128,
            fill: Color::White,
        },
    ] + spec_line_shapes(true_pts, size, scale, Color::Red) + spec_line_shapes(
        estimated_pts,
        size,
        scale,
        Color::Green,
    ) + spec_circle_shapes(measured_pts, size, scale, Color::Blue)
}

fn append_lines(
    out: &mut Vec<Shape>,
    pts: &Vec<(Rat, Rat)>,
    size: u32,
    scale: &Rat,
    stroke: Color,
)
    requires
        scale@.wf(),
        pts_wf(pts@),
        pts_scalable(pts@, scale@),
    ensures
        final (out)@ == old(out)@ + spec_line_shapes(pts_views(pts@), size as int, scale@, stroke),
{
    let ghost expect = spec_line_shapes(pts_views(pts@), size as int, scale@, stroke);
    let mut i: usize = 1;
    if pts.len() == 0 {
        proof {
            assert(out@ =~= old(out)@ + expect);
        }
        return ;
    }
    while i < pts.len()
        invariant
            1 <= i <= pts.len(),
            pts.len() >= 1,
            scale@.wf(),
            pts_wf(pts@),
            pts_scalable(pts@, scale@),
            expect == spec_line_shapes(pts_views(pts@), size as int, scale@, stroke),
            out@ == old(out)@ + expect.subrange(0, i - 1),
        decreases pts.len() - i,
    {
        let (x1r, y1r) = pts[i - 1];
        let (x2r, y2r) = pts[i];
        let x1 = pixel(&x1r, scale);
        let y1 = (size as i128) - pixel(&y1r, scale);
        let x2 = pixel(&x2r, scale);
        let y2 = (size as i128) - pixel(&y2r, scale);
        out.push(Shape::Line { x1, y1, x2, y2, stroke, stroke_width: 2 });
        proof {
            assert(expect[i - 1] == (Shape::Line {
                x1,
                y1,
                x2,
                y2,
                stroke,
                stroke_width: 2,
            }));
            assert(expect.subrange(0, i - 1).push(expect[i - 1]) =~= expect.subrange(
                0,
                i as int,
            ));
        }
        i = i + 1;
    }
    proof {
        assert(expect.subrange(0, pts.len() - 1) =~= expect);
        assert(out@ =~= old(out)@ + expect);
    }
}

fn append_circles(
    out: &mut Vec<Shape>,
    pts: &Vec<(Rat, Rat)>,
    size: u32,
    scale: &Rat,
    fill: Color,
)
    requires
        scale@.wf(),
        pts_wf(pts@),
        pts_scalable(pts@, scale@),
    ensures
        final (out)@ == old(out)@ + spec_circle_shapes(pts_views(pts@), size as int, scale@, fill),
{
    let ghost expect = spec_circle_shapes(pts_views(pts@), size as int, scale@, fill);
    let mut i: usize = 0;
    while i < pts.len()
        invariant
            0 <= i <= pts.len(),
            scale@.wf(),
            pts_wf(pts@),
            pts_scalable(pts@, scale@),
            expect == spec_circle_shapes(pts_views(pts@), size as int, scale@, fill),
            out@ == old(out)@ + expect.subrange(0, i as int),
        decreases pts.len() - i,
    {
        let (xr, yr) = pts[i];
        let cx = pixel(&xr, scale);
        let cy = (size as i128) - pixel(&yr, scale);
        out.push(Shape::Circle { cx, cy, radius: 2, fill });
        proof {
            assert(expect[i as int] == (Shape::Circle { cx, cy, radius: 2, fill }));
            assert(expect.subrange(0, i as int).push(expect[i as int]) =~= expect.subrange(
                0,
                i + 1,
            ));
        }
        i = i + 1;
    }
    proof {
        assert(expect.subrange(0, pts.len() as int) =~= expect);
        assert(out@ =~= old(out)@ + expect);
    }
}

/// The drawing plan for one frame of the recorded paths so far.
pub fn render(
    true_positions: &Vec<(Rat, Rat)>,
    measured_positions: &Vec<(Rat, Rat)>,
    estimated_positions: &Vec<(Rat, Rat)>,
    size: u32,
    scale: &Rat,
) -> (shapes: Vec<Shape>)
    requires
        scale@.wf(),
        pts_wf(true_positions@),
        pts_wf(measured_positions@),
        pts_wf(estimated_positions@),
        pts_scalable(true_positions@, scale@),
        pts_scalable(measured_positions@, scale@),
        pts_scalable(estimated_positions@, scale@),
    ensures
        shapes@ == spec_render(
            pts_views(true_positions@),
            pts_views(measured_positions@),
            pts_views(estimated_positions@),
            size as int,
            scale@,
        ),
{
    let mut shapes: Vec<Shape> = Vec::new();
    shapes.push(
        Shape::Rect {
            x: 0,
            y: 0,
            width: size as i128,
            height: size as i128,
            fill: Color::White,
        },
    );
    append_lines(&mut shapes, true_positions, size, scale, Color::Red);
    append_lines(&mut shapes, estimated_positions, size, scale, Color::Green);
    append_circles(&mut shapes, measured_positions, size, scale, Color::Blue);
    proof {
        assert(shapes@ =~= spec_render(
            pts_views(true_positions@),
            pts_views(measured_positions@),
            pts_views(estimated_positions@),
            size as int,
            scale@,
        ));
    }
    shapes
}

} // verus!
