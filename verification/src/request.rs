//! The closed set of drawing and control requests, and one constructor per
//! operation. Each constructor pins the exact encoding of the value it
//! builds, so a caller reasons about frames without looking at the encoder.

use vstd::prelude::*;

use crate::codec::circle_popup_text;
use crate::codec::circle_text;
use crate::codec::color3_text;
use crate::codec::color4_text;
use crate::codec::end_text;
use crate::codec::line_text;
use crate::codec::message_text;
use crate::codec::options_text;
use crate::codec::polyline_text;
use crate::codec::rectangle_popup_text;
use crate::codec::rectangle_text;
use crate::codec::spec_encode;
use crate::codec::triangle_text;
use crate::num::Num;
use crate::text::dec_nat;

verus! {

/// One drawing or control operation. A value encodes to exactly one flat
/// JSON object whose leading `"type"` field names the variant; the plain
/// and gradient forms of a shape share a discriminant and differ on the
/// wire only in the shape of their `color` field, and the two popups share
/// `"popup"` and differ in their geometry fields.
pub enum Request {
    End,
    Polyline { points: Vec<Num>, color: u32 },
    Circle { x: Num, y: Num, radius: Num, color: u32, fill: bool },
    Rectangle { x1: Num, y1: Num, x2: Num, y2: Num, color: u32, fill: bool },
    RectangleWithColors {
        x1: Num,
        y1: Num,
        x2: Num,
        y2: Num,
        colors: [u32; 4],
        fill: bool,
    },
    Triangle {
        x1: Num,
        y1: Num,
        x2: Num,
        y2: Num,
        x3: Num,
        y3: Num,
        color: u32,
        fill: bool,
    },
    TriangleWithColors {
        x1: Num,
        y1: Num,
        x2: Num,
        y2: Num,
        x3: Num,
        y3: Num,
        colors: [u32; 3],
        fill: bool,
    },
    CirclePopup { x: Num, y: Num, radius: Num, text: String },
    RectanglePopup { x1: Num, y1: Num, x2: Num, y2: Num, text: String },
    Options { layer: i32, permanent: bool },
    Message { text: String },
}

impl Request {
    /// The end-of-frame signal.
    pub fn end() -> (req: Request)
        ensures
            spec_encode(req) == end_text(),
    {
        Request::End
    }

    /// A line segment: sugar for the polyline of its four coordinates.
    pub fn line(x1: Num, y1: Num, x2: Num, y2: Num, color: u32) -> (req: Request)
        ensures
            spec_encode(req) == line_text(x1@, y1@, x2@, y2@, color),
    {
        let points: Vec<Num> = vec![x1, y1, x2, y2];
        proof {
            assert(points.deep_view() =~= seq![x1@, y1@, x2@, y2@]);
        }
        Request::Polyline { points, color }
    }

    /// A polyline through the given coordinates (alternating x and y).
    pub fn polyline(points: Vec<Num>, color: u32) -> (req: Request)
        ensures
            spec_encode(req) == polyline_text(points.deep_view(), color),
    {
        Request::Polyline { points, color }
    }

    /// A circle of the given center and radius.
    pub fn circle(x: Num, y: Num, radius: Num, color: u32, fill: bool) -> (req: Request)
        ensures
            spec_encode(req) == circle_text(x@, y@, radius@, color, fill),
    {
        Request::Circle { x, y, radius, color, fill }
    }

    /// An axis-aligned rectangle from top-left to bottom-right corner.
    pub fn rectangle(x1: Num, y1: Num, x2: Num, y2: Num, color: u32, fill: bool) -> (req: Request)
        ensures
            spec_encode(req) == rectangle_text(x1@, y1@, x2@, y2@, dec_nat(color as nat), fill),
    {
        Request::Rectangle { x1, y1, x2, y2, color, fill }
    }

    /// A rectangle with one color per corner.
    pub fn rectangle_with_colors(
        x1: Num,
        y1: Num,
        x2: Num,
        y2: Num,
        colors: [u32; 4],
        fill: bool,
    ) -> (req: Request)
        ensures
            spec_encode(req) == rectangle_text(x1@, y1@, x2@, y2@, color4_text(colors@), fill),
    {
        Request::RectangleWithColors { x1, y1, x2, y2, colors, fill }
    }

    /// A triangle through three vertices.
    pub fn triangle(
        x1: Num,
        y1: Num,
        x2: Num,
        y2: Num,
        x3: Num,
        y3: Num,
        color: u32,
        fill: bool,
    ) -> (req: Request)
        ensures
            spec_encode(req) == triangle_text(
                x1@,
                y1@,
                x2@,
                y2@,
                x3@,
                y3@,
                dec_nat(color as nat),
                fill,
            ),
    {
        Request::Triangle { x1, y1, x2, y2, x3, y3, color, fill }
    }

    /// A triangle with one color per vertex.
    pub fn triangle_with_colors(
        x1: Num,
        y1: Num,
        x2: Num,
        y2: Num,
        x3: Num,
        y3: Num,
        colors: [u32; 3],
        fill: bool,
    ) -> (req: Request)
        ensures
            spec_encode(req) == triangle_text(x1@, y1@, x2@, y2@, x3@, y3@, color3_text(colors@), fill),
    {
        Request::TriangleWithColors { x1, y1, x2, y2, x3, y3, colors, fill }
    }

    /// A popup over a circular area, shown when the pointer hovers it.
    pub fn circle_popup(x: Num, y: Num, radius: Num, text: String) -> (req: Request)
        ensures
            spec_encode(req) == circle_popup_text(x@, y@, radius@, text@),
    {
        Request::CirclePopup { x, y, radius, text }
    }

    /// A popup over a rectangular area.
    pub fn rectangle_popup(x1: Num, y1: Num, x2: Num, y2: Num, text: String) -> (req: Request)
        ensures
            spec_encode(req) == rectangle_popup_text(x1@, y1@, x2@, y2@, text@),
    {
        Request::RectanglePopup { x1, y1, x2, y2, text }
    }

    /// Sets the layer and persistence of the shapes that follow.
    pub fn options(layer: i32, permanent: bool) -> (req: Request)
        ensures
            spec_encode(req) == options_text(layer as int, permanent),
    {
        Request::Options { layer, permanent }
    }

    /// A free-text message shown by the visualizer.
    pub fn message(text: String) -> (req: Request)
        ensures
            spec_encode(req) == message_text(text@),
    {
        Request::Message { text }
    }
}

} // verus!
