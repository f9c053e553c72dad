//! Turning the simulated trace into raster frames: one frame per prefix of
//! the tick sequence. Each frame's svg text is pinned exactly — it is the
//! serialized drawing plan of the first `i + 1` ticks — and the downstream
//! parse, allocation and buffer-wrapping stages carry iff contracts, so
//! `animate` states exactly when it succeeds and which stage refused
//! otherwise. Only the rasterizer's pixel output itself stays unspecified:
//! it is a function of the parsed tree, which this library keeps opaque.

use vstd::prelude::*;

use crate::rat::{Rat, SpecRat};
use crate::render::{px_fits, pts_scalable, pts_wf, pts_views, render, spec_render};
use crate::simulator::{SimulateResult, SimulateTick};
use crate::svg_doc::{document_text, svg_text};
use resvg::usvg;

verus! {

#[verifier::external_type_specification]
#[verifier::external_body]
pub struct ExTree(usvg::Tree);

#[verifier::external_type_specification]
#[verifier::external_body]
pub struct ExPixmap(tiny_skia::Pixmap);

#[verifier::external_type_specification]
#[verifier::external_body]
pub struct ExFrame(image::Frame);

/// Whether usvg accepts a piece of svg text under default options.
pub uninterp spec fn svg_ok(text: Seq<char>) -> bool;

/// The width of a pixmap, in pixels.
pub uninterp spec fn pixmap_width(p: tiny_skia::Pixmap) -> int;

/// The height of a pixmap, in pixels.
pub uninterp spec fn pixmap_height(p: tiny_skia::Pixmap) -> int;

/// The RGBA bytes an animation frame holds.
pub uninterp spec fn frame_bytes(f: image::Frame) -> Seq<u8>;

/// The downstream stages that can refuse a frame.
#[derive(Clone, Copy, Debug, PartialEq, Eq, Structural)]
pub enum RenderError {
    SvgParse,
    PixmapAlloc,
    BufferSize,
}

/// Relies on usvg::Tree::from_str with default options: parses svg text
/// into a render tree, and accepts or refuses a given text the same way
/// every time.
#[verifier::external_body]
fn parse_svg(text: &str) -> (t: Option<usvg::Tree>)
    ensures
        t is Some <==> svg_ok(text@),
{
    usvg::Tree::from_str(text, &usvg::Options::default()).ok()
}

/// Relies on tiny_skia::Pixmap::new: allocates a transparent pixmap of the
/// given dimensions. It refuses exactly a zero dimension, a row of more
/// bytes than an i32 holds, or a buffer of more bytes than a usize holds.
#[verifier::external_body]
fn new_pixmap(width: u32, height: u32) -> (p: Option<tiny_skia::Pixmap>)
    ensures
        p is Some <==> (1 <= width && 1 <= height && 4 * width <= i32::MAX && 4 * (width as int)
            * (height as int) <= usize::MAX),
        p matches Some(pm) ==> pixmap_width(pm) == width as int && pixmap_height(pm)
            == height as int,
{
    tiny_skia::Pixmap::new(width, height)
}

/// Relies on resvg::render with the identity transform: draws the tree
/// onto the pixmap in place, leaving its dimensions unchanged.
#[verifier::external_body]
fn render_tree(tree: &usvg::Tree, pixmap: &mut tiny_skia::Pixmap)
    ensures
        pixmap_width(*final (pixmap)) == pixmap_width(*old(pixmap)),
        pixmap_height(*final (pixmap)) == pixmap_height(*old(pixmap)),
{
    resvg::render(tree, tiny_skia::Transform::default(), &mut pixmap.as_mut());
}

/// Relies on tiny_skia::Pixmap::data: the pixmap's pixels as RGBA bytes,
/// four per pixel.
#[verifier::external_body]
fn pixmap_bytes(p: &tiny_skia::Pixmap) -> (b: Vec<u8>)
    ensures
        b@.len() == 4 * pixmap_width(*p) * pixmap_height(*p),
{
    p.data().to_vec()
}

/// Relies on image::RgbaImage::from_raw and image::Frame::new: wraps the
/// bytes as an animation frame, whole and unchanged. It refuses exactly a
/// buffer smaller than the four bytes per pixel the dimensions need, or
/// dimensions whose byte count no usize holds. The intermediate image
/// buffer type cannot be declared here, so the two calls share this
/// wrapper.
#[verifier::external_body]
fn frame_from_bytes(width: u32, height: u32, bytes: Vec<u8>) -> (f: Option<image::Frame>)
    ensures
        f is Some <==> (4 * (width as int) <= usize::MAX && 4 * (width as int) * (height as int)
            <= usize::MAX && 4 * (width as int) * (height as int) <= bytes@.len()),
        f matches Some(fr) ==> frame_bytes(fr) == bytes@,
{
    image::RgbaImage::from_raw(width, height, bytes).map(image::Frame::new)
}

/// The (time, true position) pairs of the first `n` ticks.
pub open spec fn true_points(ticks: Seq<SimulateTick>, n: int) -> Seq<(SpecRat, SpecRat)> {
    Seq::new(n as nat, |j: int| (ticks[j].time@, ticks[j].true_position@))
}

/// The (time, measured position) pairs of the first `n` ticks.
pub open spec fn measured_points(ticks: Seq<SimulateTick>, n: int) -> Seq<(SpecRat, SpecRat)> {
    Seq::new(n as nat, |j: int| (ticks[j].time@, ticks[j].measured_position@))
}

/// The (time, estimated position) pairs of the first `n` ticks.
pub open spec fn estimated_points(ticks: Seq<SimulateTick>, n: int) -> Seq<(SpecRat, SpecRat)> {
    Seq::new(n as nat, |j: int| (ticks[j].time@, ticks[j].estimated_position@))
}

/// The svg text of frame `i`: the serialized drawing plan of the first
/// `i + 1` ticks.
pub open spec fn spec_frame_text(
    ticks: Seq<SimulateTick>,
    size: int,
    scale: SpecRat,
    i: int,
) -> Seq<char> {
    svg_text(
        spec_render(
            true_points(ticks, i + 1),
            measured_points(ticks, i + 1),
            estimated_points(ticks, i + 1),
            size,
            scale,
        ),
        size,
    )
}

/// Every coordinate of the trace can be scaled in machine words.
pub open spec fn ticks_scalable(ticks: Seq<SimulateTick>, scale: SpecRat) -> bool {
    forall|i: int|
        0 <= i < ticks.len() ==> {
            &&& px_fits((#[trigger] ticks[i]).time@, scale)
            &&& px_fits(ticks[i].true_position@, scale)
            &&& px_fits(ticks[i].measured_position@, scale)
            &&& px_fits(ticks[i].estimated_position@, scale)
        }
}

fn rat_scalable(v: &Rat, scale: &Rat) -> (r: bool)
    ensures
        r == px_fits(v@, scale@),
{
    v.num.checked_mul(scale.num).is_some() && v.den.checked_mul(scale.den).is_some()
}

/// Whether `animate` can scale every coordinate of the trace: the exact
/// machine-range condition its precondition asks for, so an unverified
/// caller can test it first.
pub fn scale_fits(result: &SimulateResult, scale: &Rat) -> (r: bool)
    ensures
        r == ticks_scalable(result.ticks@, scale@),
{
    let mut i: usize = 0;
    while i < result.ticks.len()
        invariant
            0 <= i <= result.ticks@.len(),
            forall|j: int|
                0 <= j < i ==> {
                    &&& px_fits((#[trigger] result.ticks@[j]).time@, scale@)
                    &&& px_fits(result.ticks@[j].true_position@, scale@)
                    &&& px_fits(result.ticks@[j].measured_position@, scale@)
                    &&& px_fits(result.ticks@[j].estimated_position@, scale@)
                },
        decreases result.ticks@.len() - i,
    {
        let t = &result.ticks[i];
        let ok = rat_scalable(&t.time, scale) && rat_scalable(&t.true_position, scale)
            && rat_scalable(&t.measured_position, scale) && rat_scalable(
            &t.estimated_position,
            scale,
        );
        if !ok {
            return false;
        }
        i = i + 1;
    }
    true
}

/// A square pixmap of the given size can be allocated.
pub open spec fn frame_alloc_ok(size: u32) -> bool {
    &&& 1 <= size
    &&& 4 * size <= i32::MAX
    &&& 4 * (size as int) * (size as int) <= usize::MAX
}

/// Renders the trace as an animation, one frame per tick in time order:
/// frame `i` is rasterized from the svg text of the first `i + 1` ticks.
/// It succeeds exactly when the canvas can be allocated and usvg accepts
/// every frame's text; otherwise it reports the stage that refused. On
/// success every frame holds four RGBA bytes per canvas pixel.
pub fn animate(result: &SimulateResult, size: u32, scale: Rat) -> (res: Result<
    Vec<image::Frame>,
    RenderError,
>)
    requires
        scale@.wf(),
        forall|i: int|
            0 <= i < result.ticks@.len() ==> {
                &&& (#[trigger] result.ticks@[i]).time@.wf()
                &&& result.ticks@[i].true_position@.wf()
                &&& result.ticks@[i].measured_position@.wf()
                &&& result.ticks@[i].estimated_position@.wf()
            },
        ticks_scalable(result.ticks@, scale@),
    ensures
        ({
            let n = result.ticks@.len() as int;
            let texts_ok = forall|i: int|
                0 <= i < n ==> #[trigger] svg_ok(
                    spec_frame_text(result.ticks@, size as int, scale@, i),
                );
            &&& (res is Ok <==> n == 0 || (frame_alloc_ok(size) && texts_ok))
            &&& (res == Err::<Vec<image::Frame>, RenderError>(RenderError::PixmapAlloc) <==> n > 0
                && !frame_alloc_ok(size))
            &&& (res == Err::<Vec<image::Frame>, RenderError>(RenderError::SvgParse) <==> n > 0
                && frame_alloc_ok(size) && !texts_ok)
            &&& (res matches Ok(frames) ==> {
                &&& frames@.len() == n
                &&& forall|i: int|
                    0 <= i < n ==> (#[trigger] frame_bytes(frames@[i])).len() == 4 * (size as int)
                        * (size as int)
            })
        }),
{
    let mut frames: Vec<image::Frame> = Vec::new();
    let mut true_positions: Vec<(Rat, Rat)> = Vec::new();
    let mut measured_positions: Vec<(Rat, Rat)> = Vec::new();
    let mut estimated_positions: Vec<(Rat, Rat)> = Vec::new();
    let mut i: usize = 0;
    while i < result.ticks.len()
        invariant
            0 <= i <= result.ticks@.len(),
            scale@.wf(),
            forall|j: int|
                0 <= j < result.ticks@.len() ==> {
                    &&& (#[trigger] result.ticks@[j]).time@.wf()
                    &&& result.ticks@[j].true_position@.wf()
                    &&& result.ticks@[j].measured_position@.wf()
                    &&& result.ticks@[j].estimated_position@.wf()
                },
            ticks_scalable(result.ticks@, scale@),
            frames@.len() == i,
            true_positions@.len() == i,
            measured_positions@.len() == i,
            estimated_positions@.len() == i,
            pts_wf(true_positions@),
            pts_wf(measured_positions@),
            pts_wf(estimated_positions@),
            pts_scalable(true_positions@, scale@),
            pts_scalable(measured_positions@, scale@),
            pts_scalable(estimated_positions@, scale@),
            forall|j: int|
                0 <= j < i ==> #[trigger] true_positions@[j] == (
                result.ticks@[j].time,
                result.ticks@[j].true_position,
                ),
            forall|j: int|
                0 <= j < i ==> #[trigger] measured_positions@[j] == (
                result.ticks@[j].time,
                result.ticks@[j].measured_position,
                ),
            forall|j: int|
                0 <= j < i ==> #[trigger] estimated_positions@[j] == (
                result.ticks@[j].time,
                result.ticks@[j].estimated_position,
                ),
            i > 0 ==> frame_alloc_ok(size),
            forall|j: int|
                0 <= j < i ==> #[trigger] svg_ok(
                    spec_frame_text(result.ticks@, size as int, scale@, j),
                ),
            forall|j: int|
                0 <= j < i ==> (#[trigger] frame_bytes(frames@[j])).len() == 4 * (size as int) * (
                size as int),
        decreases result.ticks@.len() - i,
    {
        let mut pixmap = match new_pixmap(size, size) {
            Some(p) => p,
            None => { return Err(RenderError::PixmapAlloc); },
        };
        let tick = result.ticks[i];
        true_positions.push((tick.time, tick.true_position));
        measured_positions.push((tick.time, tick.measured_position));
        estimated_positions.push((tick.time, tick.estimated_position));
        proof {
            assert(pts_views(true_positions@) =~= true_points(result.ticks@, i + 1));
            assert(pts_views(measured_positions@) =~= measured_points(result.ticks@, i + 1));
            assert(pts_views(estimated_positions@) =~= estimated_points(result.ticks@, i + 1));
        }
        let shapes = render(&true_positions, &measured_positions, &estimated_positions, size, &scale);
        let text = document_text(&shapes, size);
        proof {
            assert(text@ == spec_frame_text(result.ticks@, size as int, scale@, i as int));
        }
        let tree = match parse_svg(text.as_str()) {
            Some(t) => t,
            None => { return Err(RenderError::SvgParse); },
        };
        render_tree(&tree, &mut pixmap);
        let bytes = pixmap_bytes(&pixmap);
        let frame = match frame_from_bytes(size, size, bytes) {
            Some(m) => m,
            None => {
                proof {
                    assert(false);
                }
                return Err(RenderError::BufferSize);
            },
        };
        frames.push(frame);
        i = i + 1;
    }
    Ok(frames)
}

} // verus!
