//! Building the vector image of one frame. The document itself belongs to
//! the svg crate and is opaque here; its contents are tracked through the
//! names `doc_shapes` and `doc_view_size`, and each element-appending call
//! is trusted to push exactly the shape its arguments describe.

use vstd::prelude::*;

use crate::render::{Color, Shape};
use svg::node::element::{Circle, Line, Rectangle};

verus! {

#[verifier::external_type_specification]
#[verifier::external_body]
pub struct ExDocument(svg::node::element::SVG);

/// The drawing primitives an svg document holds, in the order they were
/// appended.
pub uninterp spec fn doc_shapes(d: svg::Document) -> Seq<Shape>;

/// The square view-box size the document was created with.
pub uninterp spec fn doc_view_size(d: svg::Document) -> int;

/// The text that serializing an svg document yields: a function of the
/// document's shapes and view-box size alone. This holds because the
/// element wrappers admit only the four palette keywords as colors, so the
/// decoded shapes determine every attribute, and the serializer writes
/// attributes sorted by name.
pub uninterp spec fn svg_text(shapes: Seq<Shape>, size: int) -> Seq<char>;

/// The color-keyword attribute value of each palette entry.
pub open spec fn color_name(c: Color) -> Seq<char> {
    match c {
        Color::White => "white"@,
        Color::Red => "red"@,
        Color::Green => "green"@,
        Color::Blue => "blue"@,
    }
}

/// The palette entry a color-keyword attribute value denotes.
pub open spec fn color_of_name(s: Seq<char>) -> Color {
    if s == "red"@ {
        Color::Red
    } else if s == "green"@ {
        Color::Green
    } else if s == "blue"@ {
        Color::Blue
    } else {
        Color::White
    }
}

/// The palette's keywords are distinct, so naming a color and reading the
/// name back is the identity.
pub proof fn lemma_color_roundtrip(c: Color)
    ensures
        color_of_name(color_name(c)) == c,
{
    reveal_strlit("white");
    reveal_strlit("red");
    reveal_strlit("green");
    reveal_strlit("blue");
    assert("red"@.len() == 3 && "green"@.len() == 5 && "blue"@.len() == 4 && "white"@.len() == 5);
    assert("white"@[0] == 'w' && "green"@[0] == 'g');
}

impl Color {
    /// The svg color keyword for this palette entry.
    pub fn name(&self) -> (r: &'static str)
        ensures
            r@ == color_name(*self),
    {
        match self {
            Color::White => "white",
            Color::Red => "red",
            Color::Green => "green",
            Color::Blue => "blue",
        }
    }
}

/// Relies on svg::Document::new and the attribute builder: an empty document
/// with a square view box of the given size, presented at that same size.
#[verifier::external_body]
fn doc_new(size: u32) -> (d: svg::Document)
    ensures
        doc_shapes(d) == Seq::<Shape>::empty(),
        doc_view_size(d) == size as int,
{
    svg::Document::new().set("viewBox", (0u32, 0u32, size, size)).set("width", size).set(
        "height",
        size,
    )
}

/// Relies on svg's Rectangle element builder: appends one rectangle with
/// exactly the given geometry and fill keyword.
#[verifier::external_body]
fn doc_add_rect(d: svg::Document, x: i128, y: i128, width: i128, height: i128, fill: &str) -> (r:
    svg::Document)
    requires
        color_name(color_of_name(fill@)) == fill@,
    ensures
        doc_shapes(r) == doc_shapes(d).push(
            Shape::Rect { x, y, width, height, fill: color_of_name(fill@) },
        ),
        doc_view_size(r) == doc_view_size(d),
{
    d.add(
        Rectangle::new().set("x", format!("{}", x)).set("y", format!("{}", y)).set(
            "width",
            format!("{}", width),
        ).set("height", format!("{}", height)).set("fill", fill),
    )
}

/// Relies on svg's Line element builder: appends one line segment with
/// exactly the given endpoints, stroke keyword and stroke width.
#[verifier::external_body]
fn doc_add_line(
    d: svg::Document,
    x1: i128,
    y1: i128,
    x2: i128,
    y2: i128,
    stroke: &str,
    stroke_width: i128,
) -> (r: svg::Document)
    requires
        color_name(color_of_name(stroke@)) == stroke@,
    ensures
        doc_shapes(r) == doc_shapes(d).push(
            Shape::Line { x1, y1, x2, y2, stroke: color_of_name(stroke@), stroke_width },
        ),
        doc_view_size(r) == doc_view_size(d),
{
    d.add(
        Line::new().set("x1", format!("{}", x1)).set("y1", format!("{}", y1)).set(
            "x2",
            format!("{}", x2),
        ).set("y2", format!("{}", y2)).set("stroke", stroke).set(
            "stroke-width",
            format!("{}", stroke_width),
        ),
    )
}

/// Relies on svg's Circle element builder: appends one circle with exactly
/// the given center, radius and fill keyword.
#[verifier::external_body]
fn doc_add_circle(d: svg::Document, cx: i128, cy: i128, radius: i128, fill: &str) -> (r:
    svg::Document)
    requires
        color_name(color_of_name(fill@)) == fill@,
    ensures
        doc_shapes(r) == doc_shapes(d).push(
            Shape::Circle { cx, cy, radius, fill: color_of_name(fill@) },
        ),
        doc_view_size(r) == doc_view_size(d),
{
    d.add(
        Circle::new().set("cx", format!("{}", cx)).set("cy", format!("{}", cy)).set(
            "r",
            format!("{}", radius),
        ).set("fill", fill),
    )
}

/// Relies on svg::Document's Display implementation: the serialized text of
/// the document. The serializer sorts each element's attributes by name, so
/// the text depends on the document's elements and view box alone.
#[verifier::external_body]
fn doc_to_string(d: &svg::Document) -> (s: String)
    ensures
        s@ == svg_text(doc_shapes(*d), doc_view_size(*d)),
{
    d.to_string()
}

/// An svg document holding exactly the given shapes, in order, on a square
/// view box of the given size.
pub fn build_document(shapes: &Vec<Shape>, size: u32) -> (d: svg::Document)
    ensures
        doc_shapes(d) == shapes@,
        doc_view_size(d) == size as int,
{
    let mut d = doc_new(size);
    let mut i: usize = 0;
    while i < shapes.len()
        invariant
            0 <= i <= shapes.len(),
            doc_shapes(d) == shapes@.subrange(0, i as int),
            doc_view_size(d) == size as int,
        decreases shapes.len() - i,
    {
        let s = shapes[i];
        match s {
            Shape::Rect { x, y, width, height, fill } => {
                proof {
                    lemma_color_roundtrip(fill);
                }
                d = doc_add_rect(d, x, y, width, height, fill.name());
            },
            Shape::Line { x1, y1, x2, y2, stroke, stroke_width } => {
                proof {
                    lemma_color_roundtrip(stroke);
                }
                d = doc_add_line(d, x1, y1, x2, y2, stroke.name(), stroke_width);
            },
            Shape::Circle { cx, cy, radius, fill } => {
                proof {
                    lemma_color_roundtrip(fill);
                }
                d = doc_add_circle(d, cx, cy, radius, fill.name());
            },
        }
        proof {
            assert(shapes@.subrange(0, i as int).push(shapes@[i as int]) =~= shapes@.subrange(
                0,
                i + 1,
            ));
        }
        i = i + 1;
    }
    proof {
        assert(shapes@.subrange(0, shapes@.len() as int) =~= shapes@);
    }
    d
}

/// The svg text of one frame: the given shapes on a square view box of the
/// given size, serialized.
pub fn document_text(shapes: &Vec<Shape>, size: u32) -> (s: String)
    ensures
        s@ == svg_text(shapes@, size as int),
{
    let d = build_document(shapes, size);
    doc_to_string(&d)
}

} // verus!
