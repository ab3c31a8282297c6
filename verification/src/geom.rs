//! The drawing model: a viewport, colors, text anchors, and the ordered
//! drawing primitives a chart render produces.  Later primitives draw on top
//! of earlier ones.
//!
//! All coordinates are fixed-point integers in milli-pixels; color channels
//! are per-mille.

use vstd::prelude::*;
use crate::numeral::tenths_text;
use crate::numeral::format_tenths;
use crate::scale::DIM_LIMIT;
use crate::scale::VALUE_LIMIT;

verus! {

/// The drawing surface, supplied fresh on every render call.  The origin is
/// the top-left corner; y grows downward.
#[derive(Clone, Copy, PartialEq, Eq, Structural, Debug)]
pub struct Viewport {
    /// Width in milli-pixels.
    pub width: i64,
    /// Height in milli-pixels.
    pub height: i64,
}

/// A viewport has positive edges of at most `DIM_LIMIT`.
pub open spec fn viewport_valid(vp: Viewport) -> bool {
    0 < vp.width <= DIM_LIMIT && 0 < vp.height <= DIM_LIMIT
}

/// The padding margin is nonnegative and leaves a (possibly empty) chart
/// area on both axes.
pub open spec fn padding_fits(vp: Viewport, padding: i64) -> bool {
    0 <= padding && 2 * padding <= vp.width && 2 * padding <= vp.height
}

/// A point in milli-pixels.
#[derive(Clone, Copy, PartialEq, Eq, Structural, Debug)]
pub struct Point {
    /// Horizontal position.
    pub x: i64,
    /// Vertical position.
    pub y: i64,
}

/// Its mathematical image.
pub ghost struct PointV {
    /// Horizontal position.
    pub x: int,
    /// Vertical position.
    pub y: int,
}

impl View for Point {
    type V = PointV;

    open spec fn view(&self) -> PointV {
        PointV { x: self.x as int, y: self.y as int }
    }
}

/// An RGBA color with per-mille channels (1000 is full intensity).
#[derive(Clone, Copy, PartialEq, Eq, Structural, Debug)]
pub struct Color {
    /// Red channel.
    pub r: u16,
    /// Green channel.
    pub g: u16,
    /// Blue channel.
    pub b: u16,
    /// Opacity.
    pub a: u16,
}

/// Opaque black, used for axes and text.
pub open spec fn black() -> Color {
    Color { r: 0, g: 0, b: 0, a: 1000 }
}

/// The opaque blue all data primitives are drawn in.
pub open spec fn data_color() -> Color {
    Color { r: 200, g: 600, b: 900, a: 1000 }
}

/// The translucent blue of an area fill.
pub open spec fn area_color() -> Color {
    Color { r: 200, g: 600, b: 900, a: 300 }
}

/// Horizontal text anchor.
#[derive(Clone, Copy, PartialEq, Eq, Structural, Debug)]
pub enum HAlign {
    /// The position is the horizontal center of the text.
    Center,
}

/// Vertical text anchor.
#[derive(Clone, Copy, PartialEq, Eq, Structural, Debug)]
pub enum VAlign {
    /// The position is the top edge of the text.
    Top,
    /// The position is the vertical center of the text.
    Center,
    /// The position is the bottom edge of the text.
    Bottom,
}

/// One drawing primitive of a geometry plan.
#[derive(Clone, PartialEq, Debug)]
pub enum Primitive {
    /// An axis-aligned filled rectangle.
    Rect {
        /// Left edge.
        x: i64,
        /// Top edge.
        y: i64,
        /// Width (negative widths draw nothing).
        w: i64,
        /// Height.
        h: i64,
        /// Fill color.
        color: Color,
    },
    /// An open polyline stroked through its points in order.
    Polyline {
        /// The stroked points; fewer than two points draw no segment.
        points: Vec<Point>,
        /// Stroke width in milli-pixels.
        stroke_width: i64,
        /// Stroke color.
        color: Color,
    },
    /// A filled circle.
    Circle {
        /// Center x.
        cx: i64,
        /// Center y.
        cy: i64,
        /// Radius in milli-pixels.
        radius: i64,
        /// Fill color.
        color: Color,
    },
    /// A closed filled polygon.
    FilledPolygon {
        /// The outline, closed back to its first point.
        points: Vec<Point>,
        /// Fill color.
        color: Color,
    },
    /// An anchored text label.
    Text {
        /// The label text.
        content: String,
        /// Anchor x.
        x: i64,
        /// Anchor y.
        y: i64,
        /// Font size in milli-pixels.
        font_size: i64,
        /// Horizontal anchor.
        h_align: HAlign,
        /// Vertical anchor.
        v_align: VAlign,
        /// Text color.
        color: Color,
    },
}

/// The mathematical image of a primitive.
pub ghost enum PrimV {
    /// An axis-aligned filled rectangle.
    Rect { x: int, y: int, w: int, h: int, color: Color },
    /// An open polyline.
    Polyline { points: Seq<PointV>, stroke_width: int, color: Color },
    /// A filled circle.
    Circle { cx: int, cy: int, radius: int, color: Color },
    /// A closed filled polygon.
    FilledPolygon { points: Seq<PointV>, color: Color },
    /// An anchored text label.
    Text {
        content: Seq<char>,
        x: int,
        y: int,
        font_size: int,
        h_align: HAlign,
        v_align: VAlign,
        color: Color,
    },
}

impl View for Primitive {
    type V = PrimV;

    open spec fn view(&self) -> PrimV {
        match self {
            Primitive::Rect { x, y, w, h, color } => PrimV::Rect {
                x: *x as int,
                y: *y as int,
                w: *w as int,
                h: *h as int,
                color: *color,
            },
            Primitive::Polyline { points, stroke_width, color } => PrimV::Polyline {
                points: points@.map_values(|p: Point| p@),
                stroke_width: *stroke_width as int,
                color: *color,
            },
            Primitive::Circle { cx, cy, radius, color } => PrimV::Circle {
                cx: *cx as int,
                cy: *cy as int,
                radius: *radius as int,
                color: *color,
            },
            Primitive::FilledPolygon { points, color } => PrimV::FilledPolygon {
                points: points@.map_values(|p: Point| p@),
                color: *color,
            },
            Primitive::Text { content, x, y, font_size, h_align, v_align, color } => PrimV::Text {
                content: content@,
                x: *x as int,
                y: *y as int,
                font_size: *font_size as int,
                h_align: *h_align,
                v_align: *v_align,
                color: *color,
            },
        }
    }
}

/// Whether an executable plan realizes a mathematical plan, primitive by
/// primitive and in the same order.
pub open spec fn plan_matches(plan: Seq<Primitive>, model: Seq<PrimV>) -> bool {
    plan.len() == model.len() && forall|j: int|
        0 <= j < plan.len() ==> #[trigger] plan[j]@ == model[j]
}

/// A category label below the axis: font size 12, centered, anchored above.
pub open spec fn spec_x_label(content: Seq<char>, x: int, y: int) -> PrimV {
    PrimV::Text {
        content,
        x,
        y,
        font_size: 12000,
        h_align: HAlign::Center,
        v_align: VAlign::Top,
        color: black(),
    }
}

/// A value label above its mark: the value to one decimal place, font size
/// 10, centered, anchored below.
pub open spec fn spec_value_label(value: int, x: int, y: int) -> PrimV {
    PrimV::Text {
        content: tenths_text(value),
        x,
        y,
        font_size: 10000,
        h_align: HAlign::Center,
        v_align: VAlign::Bottom,
        color: black(),
    }
}

/// Builds a category label primitive.
pub fn x_label(content: String, x: i64, y: i64) -> (p: Primitive)
    ensures
        p@ == spec_x_label(content@, x as int, y as int),
{
    Primitive::Text {
        content,
        x,
        y,
        font_size: 12000,
        h_align: HAlign::Center,
        v_align: VAlign::Top,
        color: Color { r: 0, g: 0, b: 0, a: 1000 },
    }
}

/// Builds a value label primitive.
pub fn value_label(value: i64, x: i64, y: i64) -> (p: Primitive)
    requires
        -VALUE_LIMIT <= value <= VALUE_LIMIT,
    ensures
        p@ == spec_value_label(value as int, x as int, y as int),
{
    Primitive::Text {
        content: format_tenths(value),
        x,
        y,
        font_size: 10000,
        h_align: HAlign::Center,
        v_align: VAlign::Bottom,
        color: Color { r: 0, g: 0, b: 0, a: 1000 },
    }
}

} // verus!
