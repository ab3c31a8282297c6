//! The layout engine: one algorithm per chart kind, each turning a dataset
//! and a viewport into an ordered sequence of drawing primitives, and the
//! dispatching render entry point.

use vstd::prelude::*;
use crate::dataset::{Dataset, DatasetV, ChartKind, spec_effective_len, max_value_of, LEN_LIMIT};
use crate::geom::{
    Viewport, viewport_valid, padding_fits, Point, PointV, Color, HAlign, VAlign, Primitive, PrimV,
    plan_matches, black, data_color, area_color, spec_x_label, spec_value_label, x_label,
    value_label,
};
use crate::scale::{VALUE_LIMIT, DIM_LIMIT, SPAN_LIMIT, div_pos, scaled_height, value_height};

verus! {

/// Width of the chart area: the viewport minus the padding on both sides.
pub open spec fn chart_w(vp: Viewport, pad: int) -> int {
    vp.width - 2 * pad
}

/// Height of the chart area.
pub open spec fn chart_h(vp: Viewport, pad: int) -> int {
    vp.height - 2 * pad
}

/// The y position of the chart baseline (the bottom axis).
pub open spec fn chart_bottom(vp: Viewport, pad: int) -> int {
    vp.height - pad
}

/// Bar width: the chart width shared among the categories, half a bar of
/// gutter each.
pub open spec fn bar_width_of(d: DatasetV, vp: Viewport, pad: int) -> int {
    (chart_w(vp, pad) * 2) / (3 * d.categories.len() as int)
}

/// Left edge of bar `i`: every bar advances one and a half bar widths.
pub open spec fn bar_x(d: DatasetV, vp: Viewport, pad: int, i: int) -> int {
    pad + (i * bar_width_of(d, vp, pad) * 3) / 2
}

/// The three primitives of bar `i`: its rectangle, its category label under
/// the axis, and its value label just above the bar top.
pub open spec fn bar_item(d: DatasetV, vp: Viewport, pad: int, maxv: int, i: int) -> Seq<PrimV> {
    let bw = bar_width_of(d, vp, pad);
    let x = bar_x(d, vp, pad, i);
    let h = scaled_height(d.values[i] as int, maxv, chart_h(vp, pad));
    let y = chart_bottom(vp, pad) - h;
    seq![
        PrimV::Rect { x, y, w: bw, h, color: data_color() },
        spec_x_label(d.categories[i], x + bw / 2, chart_bottom(vp, pad) + 20000),
        spec_value_label(d.values[i] as int, x + bw / 2, y - 5000),
    ]
}

/// The bar chart primitives for the first `n` indices.
pub open spec fn bar_prims(d: DatasetV, vp: Viewport, pad: int, maxv: int, n: int) -> Seq<PrimV>
    decreases n,
{
    if n <= 0 {
        Seq::empty()
    } else {
        bar_prims(d, vp, pad, maxv, n - 1) + bar_item(d, vp, pad, maxv, n - 1)
    }
}

/// Lays out a bar chart: for each rendered index one bottom-anchored bar
/// with its category and value labels.
pub fn bar_chart(d: &Dataset, vp: Viewport, padding: i64, max_value: i64) -> (plan: Vec<Primitive>)
    requires
        d.well_formed(),
        viewport_valid(vp),
        padding_fits(vp, padding),
        0 < max_value <= VALUE_LIMIT,
        spec_effective_len(d@) > 0,
    ensures
        plan_matches(
            plan@,
            bar_prims(d@, vp, padding as int, max_value as int, spec_effective_len(d@)),
        ),
{
    let cw: i64 = vp.width - 2 * padding;
    let ch: i64 = vp.height - 2 * padding;
    let bottom: i64 = vp.height - padding;
    let ncats: i64 = d.categories.len() as i64;
    let bw = div_pos(cw * 2, 3 * ncats);
    let n = d.effective_len();
    let mut plan: Vec<Primitive> = Vec::new();
    let mut i: usize = 0;
    while i < n
        invariant
            d.well_formed(),
            viewport_valid(vp),
            padding_fits(vp, padding),
            0 < max_value <= VALUE_LIMIT,
            n == spec_effective_len(d@),
            n <= d.categories@.len() && n <= d.values@.len(),
            0 <= i <= n,
            cw == chart_w(vp, padding as int),
            ch == chart_h(vp, padding as int),
            0 <= ch <= DIM_LIMIT,
            bottom == chart_bottom(vp, padding as int),
            bw == bar_width_of(d@, vp, padding as int),
            0 <= bw <= 20_000_000,
            plan_matches(plan@, bar_prims(d@, vp, padding as int, max_value as int, i as int)),
        decreases n - i,
    {
        proof {
            assert(0 <= (i as int) * (bw as int) <= 20_000_000_000_000_000) by (nonlinear_arith)
                requires 0 <= i as int <= 1_000_000_000 && 0 <= bw as int <= 20_000_000;
        }
        let xi: i64 = padding + div_pos((i as i64) * bw * 3, 2);
        let v = d.values[i];
        let h = value_height(v, max_value, ch);
        let y: i64 = bottom - h;
        let lbl_x: i64 = xi + div_pos(bw, 2);
        let ghost pre = plan@;
        plan.push(Primitive::Rect { x: xi, y, w: bw, h, color: Color { r: 200, g: 600, b: 900, a: 1000 } });
        plan.push(x_label(clone_string(&d.categories[i]), lbl_x, bottom + 20000));
        plan.push(value_label(v, lbl_x, y - 5000));
        proof {
            let pad = padding as int;
            let maxv = max_value as int;
            let item = bar_item(d@, vp, pad, maxv, i as int);
            let m = bar_prims(d@, vp, pad, maxv, i as int + 1);
            assert(m == bar_prims(d@, vp, pad, maxv, i as int) + item);
            assert(d@.values[i as int] == d.values@[i as int]);
            assert(d@.categories[i as int] == d.categories@[i as int]@);
            assert(xi as int == bar_x(d@, vp, pad, i as int));
            assert(plan@[pre.len() as int]@ == item[0]);
            assert(plan@[pre.len() as int + 1]@ == item[1]);
            assert(plan@[pre.len() as int + 2]@ == item[2]);
            assert forall|j: int| 0 <= j < plan@.len() implies #[trigger] plan@[j]@ == m[j] by {
                if j < pre.len() {
                    assert(plan@[j] == pre[j]);
                }
            }
        }
        i = i + 1;
    }
    plan
}

/// Clones a string.
pub fn clone_string(s: &String) -> (r: String)
    ensures
        r@ == s@,
{
    s.clone()
}

/// Histogram bar width: the chart width shared edge-to-edge among all
/// values (categories play no part).
pub open spec fn hist_bar_width(d: DatasetV, vp: Viewport, pad: int) -> int {
    chart_w(vp, pad) / d.values.len() as int
}

/// The single primitive of histogram bin `i`: an edge-to-edge bar minus a
/// two-pixel gutter, with no labels.
pub open spec fn hist_item(d: DatasetV, vp: Viewport, pad: int, maxv: int, i: int) -> Seq<PrimV> {
    let bw = hist_bar_width(d, vp, pad);
    let x = pad + i * bw;
    let h = scaled_height(d.values[i] as int, maxv, chart_h(vp, pad));
    let y = chart_bottom(vp, pad) - h;
    seq![PrimV::Rect { x, y, w: bw - 2000, h, color: data_color() }]
}

/// The histogram primitives for the first `n` bins.
pub open spec fn hist_prims(d: DatasetV, vp: Viewport, pad: int, maxv: int, n: int) -> Seq<PrimV>
    decreases n,
{
    if n <= 0 {
        Seq::empty()
    } else {
        hist_prims(d, vp, pad, maxv, n - 1) + hist_item(d, vp, pad, maxv, n - 1)
    }
}

/// Lays out a histogram: every value is an already-binned frequency, drawn
/// as an unlabelled bar; the category series is ignored.
pub fn histogram(d: &Dataset, vp: Viewport, padding: i64, max_value: i64) -> (plan: Vec<Primitive>)
    requires
        d.well_formed(),
        viewport_valid(vp),
        padding_fits(vp, padding),
        0 < max_value <= VALUE_LIMIT,
        d@.values.len() > 0,
    ensures
        plan_matches(
            plan@,
            hist_prims(d@, vp, padding as int, max_value as int, d@.values.len() as int),
        ),
{
    let cw: i64 = vp.width - 2 * padding;
    let ch: i64 = vp.height - 2 * padding;
    let bottom: i64 = vp.height - padding;
    let n = d.values.len();
    let bw = div_pos(cw, n as i64);
    let mut plan: Vec<Primitive> = Vec::new();
    let mut i: usize = 0;
    while i < n
        invariant
            d.well_formed(),
            viewport_valid(vp),
            padding_fits(vp, padding),
            0 < max_value <= VALUE_LIMIT,
            n == d@.values.len(),
            0 <= i <= n,
            cw == chart_w(vp, padding as int),
            ch == chart_h(vp, padding as int),
            0 <= ch <= DIM_LIMIT,
            bottom == chart_bottom(vp, padding as int),
            bw == hist_bar_width(d@, vp, padding as int),
            0 <= bw <= 10_000_000,
            plan_matches(plan@, hist_prims(d@, vp, padding as int, max_value as int, i as int)),
        decreases n - i,
    {
        proof {
            assert(0 <= (i as int) * (bw as int) <= 10_000_000_000_000_000) by (nonlinear_arith)
                requires 0 <= i as int <= 1_000_000_000 && 0 <= bw as int <= 10_000_000;
        }
        let xi: i64 = padding + (i as i64) * bw;
        let v = d.values[i];
        let h = value_height(v, max_value, ch);
        let y: i64 = bottom - h;
        let ghost pre = plan@;
        plan.push(
            Primitive::Rect {
                x: xi,
                y,
                w: bw - 2000,
                h,
                color: Color { r: 200, g: 600, b: 900, a: 1000 },
            },
        );
        proof {
            let pad = padding as int;
            let maxv = max_value as int;
            let item = hist_item(d@, vp, pad, maxv, i as int);
            let m = hist_prims(d@, vp, pad, maxv, i as int + 1);
            assert(m == hist_prims(d@, vp, pad, maxv, i as int) + item);
            assert(d@.values[i as int] == d.values@[i as int]);
            assert(plan@[pre.len() as int]@ == item[0]);
            assert forall|j: int| 0 <= j < plan@.len() implies #[trigger] plan@[j]@ == m[j] by {
                if j < pre.len() {
                    assert(plan@[j] == pre[j]);
                }
            }
        }
        i = i + 1;
    }
    plan
}

/// The axis L-shape: down the left edge of the chart area, then along its
/// bottom, stroke width 2, drawn last of all.
pub open spec fn axis_prim(vp: Viewport, pad: int) -> PrimV {
    PrimV::Polyline {
        points: seq![
            PointV { x: pad, y: pad },
            PointV { x: pad, y: vp.height - pad },
            PointV { x: vp.width - pad, y: vp.height - pad },
        ],
        stroke_width: 2000,
        color: black(),
    }
}

/// Builds the axis primitive.
pub fn axis_primitive(vp: Viewport, padding: i64) -> (p: Primitive)
    requires
        viewport_valid(vp),
        padding_fits(vp, padding),
    ensures
        p@ == axis_prim(vp, padding as int),
{
    let mut pts: Vec<Point> = Vec::new();
    pts.push(Point { x: padding, y: padding });
    pts.push(Point { x: padding, y: vp.height - padding });
    pts.push(Point { x: vp.width - padding, y: vp.height - padding });
    proof {
        assert(pts@.map_values(|q: Point| q@) =~= axis_prim(vp, padding as int)->Polyline_points);
    }
    Primitive::Polyline { points: pts, stroke_width: 2000, color: Color { r: 0, g: 0, b: 0, a: 1000 } }
}

/// The centered placeholder shown when either series is empty.
pub open spec fn no_data_prim(vp: Viewport) -> PrimV {
    PrimV::Text {
        content: "No data to display"@,
        x: vp.width as int / 2,
        y: vp.height as int / 2,
        font_size: 20000,
        h_align: HAlign::Center,
        v_align: VAlign::Center,
        color: black(),
    }
}

/// Builds the empty-data placeholder text.
pub fn no_data_primitive(vp: Viewport) -> (p: Primitive)
    requires
        viewport_valid(vp),
    ensures
        p@ == no_data_prim(vp),
{
    Primitive::Text {
        content: "No data to display".to_owned(),
        x: div_pos(vp.width, 2),
        y: div_pos(vp.height, 2),
        font_size: 20000,
        h_align: HAlign::Center,
        v_align: VAlign::Center,
        color: Color { r: 0, g: 0, b: 0, a: 1000 },
    }
}

/// Horizontal step between neighbouring points: the chart width over the
/// point count less one, floored at one to keep a single point finite.
pub open spec fn x_step_of(vp: Viewport, pad: int, n: int) -> int {
    chart_w(vp, pad) / (if n - 1 > 1 { n - 1 } else { 1 })
}

/// The x position of point `i` under uniform spacing.
pub open spec fn index_x(d: DatasetV, vp: Viewport, pad: int, i: int) -> int {
    pad + i * x_step_of(vp, pad, spec_effective_len(d))
}

/// The y position of point `i`, by the scale mapper.
pub open spec fn point_y(d: DatasetV, vp: Viewport, pad: int, maxv: int, i: int) -> int {
    crate::scale::spec_value_to_y(d.values[i] as int, maxv, pad, chart_bottom(vp, pad))
}

/// The uniformly spaced points of the value curve, for the first `k`
/// indices.
pub open spec fn curve_points(d: DatasetV, vp: Viewport, pad: int, maxv: int, k: int) -> Seq<
    PointV,
>
    decreases k,
{
    if k <= 0 {
        Seq::empty()
    } else {
        curve_points(d, vp, pad, maxv, k - 1).push(
            PointV { x: index_x(d, vp, pad, k - 1), y: point_y(d, vp, pad, maxv, k - 1) },
        )
    }
}

/// The marker circle and the two labels of line-chart point `i`.
pub open spec fn line_mark_item(d: DatasetV, vp: Viewport, pad: int, maxv: int, i: int) -> Seq<
    PrimV,
> {
    let x = index_x(d, vp, pad, i);
    let y = point_y(d, vp, pad, maxv, i);
    seq![
        PrimV::Circle { cx: x, cy: y, radius: 4000, color: data_color() },
        spec_x_label(d.categories[i], x, chart_bottom(vp, pad) + 20000),
        spec_value_label(d.values[i] as int, x, y - 10000),
    ]
}

/// The line-chart marks for the first `k` points.
pub open spec fn line_marks(d: DatasetV, vp: Viewport, pad: int, maxv: int, k: int) -> Seq<PrimV>
    decreases k,
{
    if k <= 0 {
        Seq::empty()
    } else {
        line_marks(d, vp, pad, maxv, k - 1) + line_mark_item(d, vp, pad, maxv, k - 1)
    }
}

/// The line chart: one continuous polyline through every point, then a
/// marker circle and labels per point.
pub open spec fn line_prims(d: DatasetV, vp: Viewport, pad: int, maxv: int) -> Seq<PrimV> {
    let n = spec_effective_len(d);
    if n == 0 {
        Seq::empty()
    } else {
        seq![
            PrimV::Polyline {
                points: curve_points(d, vp, pad, maxv, n),
                stroke_width: 2000,
                color: data_color(),
            },
        ] + line_marks(d, vp, pad, maxv, n)
    }
}

/// Builds the uniformly spaced curve points.
fn build_curve(d: &Dataset, vp: Viewport, padding: i64, max_value: i64, xs: i64, n: usize) -> (pts:
    Vec<Point>)
    requires
        d.well_formed(),
        viewport_valid(vp),
        padding_fits(vp, padding),
        0 < max_value <= VALUE_LIMIT,
        n == spec_effective_len(d@),
        xs == x_step_of(vp, padding as int, n as int),
        0 <= xs <= 10_000_000,
    ensures
        pts@.map_values(|q: Point| q@) == curve_points(
            d@,
            vp,
            padding as int,
            max_value as int,
            n as int,
        ),
        pts@.len() == n,
{
    let ch: i64 = vp.height - 2 * padding;
    let bottom: i64 = vp.height - padding;
    let mut pts: Vec<Point> = Vec::new();
    let mut i: usize = 0;
    while i < n
        invariant
            d.well_formed(),
            viewport_valid(vp),
            padding_fits(vp, padding),
            0 < max_value <= VALUE_LIMIT,
            n == spec_effective_len(d@),
            xs == x_step_of(vp, padding as int, n as int),
            0 <= xs <= 10_000_000,
            0 <= i <= n,
            ch == chart_h(vp, padding as int),
            0 <= ch <= DIM_LIMIT,
            bottom == chart_bottom(vp, padding as int),
            pts@.len() == i,
            pts@.map_values(|q: Point| q@) == curve_points(
                d@,
                vp,
                padding as int,
                max_value as int,
                i as int,
            ),
        decreases n - i,
    {
        proof {
            assert(0 <= (i as int) * (xs as int) <= 10_000_000_000_000_000) by (nonlinear_arith)
                requires 0 <= i as int <= 1_000_000_000 && 0 <= xs as int <= 10_000_000;
        }
        let xi: i64 = padding + (i as i64) * xs;
        let v = d.values[i];
        let h = value_height(v, max_value, ch);
        let y: i64 = bottom - h;
        pts.push(Point { x: xi, y });
        proof {
            assert(d@.values[i as int] == d.values@[i as int]);
            assert(pts@.map_values(|q: Point| q@) =~= curve_points(
                d@,
                vp,
                padding as int,
                max_value as int,
                i as int + 1,
            ));
        }
        i = i + 1;
    }
    pts
}

/// Computes the point step for `n` points.
fn x_step(vp: Viewport, padding: i64, n: usize) -> (xs: i64)
    requires
        viewport_valid(vp),
        padding_fits(vp, padding),
        n <= LEN_LIMIT,
    ensures
        xs == x_step_of(vp, padding as int, n as int),
        0 <= xs <= 10_000_000,
{
    let cw: i64 = vp.width - 2 * padding;
    let divisor: i64 = if n >= 2 {
        (n - 1) as i64
    } else {
        1
    };
    div_pos(cw, divisor)
}

/// Lays out a line chart: one polyline through every point, plus a marker
/// circle, a category label and a value label at each point.
pub fn line_chart(d: &Dataset, vp: Viewport, padding: i64, max_value: i64) -> (plan: Vec<Primitive>)
    requires
        d.well_formed(),
        viewport_valid(vp),
        padding_fits(vp, padding),
        0 < max_value <= VALUE_LIMIT,
    ensures
        plan_matches(plan@, line_prims(d@, vp, padding as int, max_value as int)),
{
    let n = d.effective_len();
    let mut plan: Vec<Primitive> = Vec::new();
    if n == 0 {
        return plan;
    }
    let xs = x_step(vp, padding, n);
    let pts = build_curve(d, vp, padding, max_value, xs, n);
    plan.push(
        Primitive::Polyline {
            points: pts,
            stroke_width: 2000,
            color: Color { r: 200, g: 600, b: 900, a: 1000 },
        },
    );
    let ch: i64 = vp.height - 2 * padding;
    let bottom: i64 = vp.height - padding;
    let ghost head = seq![
        PrimV::Polyline {
            points: curve_points(d@, vp, padding as int, max_value as int, n as int),
            stroke_width: 2000,
            color: data_color(),
        },
    ];
    proof {
        assert(plan@[0]@ == head[0]);
    }
    let mut i: usize = 0;
    while i < n
        invariant
            d.well_formed(),
            viewport_valid(vp),
            padding_fits(vp, padding),
            0 < max_value <= VALUE_LIMIT,
            n == spec_effective_len(d@),
            n > 0,
            0 <= i <= n,
            xs == x_step_of(vp, padding as int, n as int),
            0 <= xs <= 10_000_000,
            ch == chart_h(vp, padding as int),
            0 <= ch <= DIM_LIMIT,
            bottom == chart_bottom(vp, padding as int),
            head == seq![
                PrimV::Polyline {
                    points: curve_points(d@, vp, padding as int, max_value as int, n as int),
                    stroke_width: 2000,
                    color: data_color(),
                },
            ],
            plan_matches(
                plan@,
                head + line_marks(d@, vp, padding as int, max_value as int, i as int),
            ),
        decreases n - i,
    {
        proof {
            assert(0 <= (i as int) * (xs as int) <= 10_000_000_000_000_000) by (nonlinear_arith)
                requires 0 <= i as int <= 1_000_000_000 && 0 <= xs as int <= 10_000_000;
        }
        let xi: i64 = padding + (i as i64) * xs;
        let v = d.values[i];
        let h = value_height(v, max_value, ch);
        let y: i64 = bottom - h;
        let ghost pre = plan@;
        plan.push(
            Primitive::Circle {
                cx: xi,
                cy: y,
                radius: 4000,
                color: Color { r: 200, g: 600, b: 900, a: 1000 },
            },
        );
        plan.push(x_label(clone_string(&d.categories[i]), xi, bottom + 20000));
        plan.push(value_label(v, xi, y - 10000));
        proof {
            let pad = padding as int;
            let maxv = max_value as int;
            let item = line_mark_item(d@, vp, pad, maxv, i as int);
            let m = head + line_marks(d@, vp, pad, maxv, i as int + 1);
            assert(line_marks(d@, vp, pad, maxv, i as int + 1) == line_marks(
                d@,
                vp,
                pad,
                maxv,
                i as int,
            ) + item);
            assert(d@.values[i as int] == d.values@[i as int]);
            assert(d@.categories[i as int] == d.categories@[i as int]@);
            assert(plan@[pre.len() as int]@ == item[0]);
            assert(plan@[pre.len() as int + 1]@ == item[1]);
            assert(plan@[pre.len() as int + 2]@ == item[2]);
            assert forall|j: int| 0 <= j < plan@.len() implies #[trigger] plan@[j]@ == m[j] by {
                if j < pre.len() {
                    assert(plan@[j] == pre[j]);
                }
            }
        }
        i = i + 1;
    }
    plan
}

/// The closed outline of the area fill: the baseline start, the value
/// curve, and the drop back to the baseline under the last point.
pub open spec fn area_points(d: DatasetV, vp: Viewport, pad: int, maxv: int) -> Seq<PointV> {
    let n = spec_effective_len(d);
    seq![PointV { x: pad, y: chart_bottom(vp, pad) }] + curve_points(d, vp, pad, maxv, n) + seq![
        PointV { x: index_x(d, vp, pad, n - 1), y: chart_bottom(vp, pad) },
    ]
}

/// The category labels of the area chart, one under every point.
pub open spec fn area_labels(d: DatasetV, vp: Viewport, pad: int, k: int) -> Seq<PrimV>
    decreases k,
{
    if k <= 0 {
        Seq::empty()
    } else {
        area_labels(d, vp, pad, k - 1).push(
            spec_x_label(d.categories[k - 1], index_x(d, vp, pad, k - 1), chart_bottom(vp, pad)
                + 20000),
        )
    }
}

/// The area chart: one translucent filled polygon under the value curve,
/// then a category label per point.
pub open spec fn area_prims(d: DatasetV, vp: Viewport, pad: int, maxv: int) -> Seq<PrimV> {
    let n = spec_effective_len(d);
    if n == 0 {
        Seq::empty()
    } else {
        seq![PrimV::FilledPolygon { points: area_points(d, vp, pad, maxv), color: area_color() }]
            + area_labels(d, vp, pad, n)
    }
}

/// Lays out an area chart: a translucent polygon filling the region under
/// the value curve, with a category label under every point.
pub fn area_chart(d: &Dataset, vp: Viewport, padding: i64, max_value: i64) -> (plan: Vec<Primitive>)
    requires
        d.well_formed(),
        viewport_valid(vp),
        padding_fits(vp, padding),
        0 < max_value <= VALUE_LIMIT,
    ensures
        plan_matches(plan@, area_prims(d@, vp, padding as int, max_value as int)),
{
    let n = d.effective_len();
    let mut plan: Vec<Primitive> = Vec::new();
    if n == 0 {
        return plan;
    }
    let xs = x_step(vp, padding, n);
    let bottom: i64 = vp.height - padding;
    let mut pts: Vec<Point> = Vec::new();
    pts.push(Point { x: padding, y: bottom });
    let curve = build_curve(d, vp, padding, max_value, xs, n);
    let mut k: usize = 0;
    while k < curve.len()
        invariant
            0 <= k <= curve@.len(),
            pts@.len() == 1 + k,
            pts@[0] == (Point { x: padding, y: bottom }),
            forall|j: int| 0 <= j < k ==> pts@[j + 1] == curve@[j],
        decreases curve@.len() - k,
    {
        pts.push(curve[k]);
        k = k + 1;
    }
    proof {
        assert(0 <= (n - 1) as int * (xs as int) <= 10_000_000_000_000_000) by (nonlinear_arith)
            requires 0 <= (n - 1) as int <= 1_000_000_000 && 0 <= xs as int <= 10_000_000;
    }
    let last_x: i64 = padding + ((n - 1) as i64) * xs;
    pts.push(Point { x: last_x, y: bottom });
    proof {
        let model = area_points(d@, vp, padding as int, max_value as int);
        let curve_model = curve_points(d@, vp, padding as int, max_value as int, n as int);
        assert(curve@.map_values(|q: Point| q@) == curve_model);
        assert forall|j: int| 0 <= j < pts@.len() implies #[trigger] pts@[j]@ == model[j] by {
            if j == 0 {
            } else if j <= n {
                assert(pts@[j] == curve@[j - 1]);
                assert(curve@[j - 1]@ == curve_model[j - 1]);
            }
        }
        assert(pts@.map_values(|q: Point| q@) =~= model);
    }
    plan.push(
        Primitive::FilledPolygon { points: pts, color: Color { r: 200, g: 600, b: 900, a: 300 } },
    );
    let ghost head = seq![
        PrimV::FilledPolygon {
            points: area_points(d@, vp, padding as int, max_value as int),
            color: area_color(),
        },
    ];
    proof {
        assert(plan@[0]@ == head[0]);
    }
    let mut i: usize = 0;
    while i < n
        invariant
            d.well_formed(),
            viewport_valid(vp),
            padding_fits(vp, padding),
            n == spec_effective_len(d@),
            n > 0,
            0 <= i <= n,
            xs == x_step_of(vp, padding as int, n as int),
            0 <= xs <= 10_000_000,
            bottom == chart_bottom(vp, padding as int),
            head == seq![
                PrimV::FilledPolygon {
                    points: area_points(d@, vp, padding as int, max_value as int),
                    color: area_color(),
                },
            ],
            plan_matches(plan@, head + area_labels(d@, vp, padding as int, i as int)),
        decreases n - i,
    {
        proof {
            assert(0 <= (i as int) * (xs as int) <= 10_000_000_000_000_000) by (nonlinear_arith)
                requires 0 <= i as int <= 1_000_000_000 && 0 <= xs as int <= 10_000_000;
        }
        let xi: i64 = padding + (i as i64) * xs;
        let ghost pre = plan@;
        plan.push(x_label(clone_string(&d.categories[i]), xi, bottom + 20000));
        proof {
            let pad = padding as int;
            let item = spec_x_label(d@.categories[i as int], index_x(d@, vp, pad, i as int),
                chart_bottom(vp, pad) + 20000);
            let m = head + area_labels(d@, vp, pad, i as int + 1);
            assert(area_labels(d@, vp, pad, i as int + 1) == area_labels(d@, vp, pad, i as int)
                .push(item));
            assert(d@.categories[i as int] == d.categories@[i as int]@);
            assert(plan@[pre.len() as int]@ == item);
            assert forall|j: int| 0 <= j < plan@.len() implies #[trigger] plan@[j]@ == m[j] by {
                if j < pre.len() {
                    assert(plan@[j] == pre[j]);
                }
            }
        }
        i = i + 1;
    }
    plan
}

/// Whether every category label parses as a decimal numeral.
pub open spec fn labels_all_numeric(cats: Seq<Seq<char>>) -> bool {
    forall|i: int| 0 <= i < cats.len() ==> crate::numeral::parsed_value(#[trigger] cats[i]) is Some
}

/// The parsed milli-unit value of label `i`.
pub open spec fn parsed_label(cats: Seq<Seq<char>>, i: int) -> int {
    crate::numeral::parsed_value(cats[i])->Some_0 as int
}

/// The largest parsed label among the first `k`, floored at zero.
pub open spec fn max_label_of(cats: Seq<Seq<char>>, k: int) -> int
    decreases k,
{
    if k <= 0 {
        0
    } else {
        let rest = max_label_of(cats, k - 1);
        if parsed_label(cats, k - 1) > rest {
            parsed_label(cats, k - 1)
        } else {
            rest
        }
    }
}

/// Whether the scatter chart positions points by their parsed labels:
/// every label is a numeral, the parsed count equals the rendered count,
/// and the largest parsed label is positive (else positions fall back to
/// uniform spacing).
pub open spec fn scatter_numeric(d: DatasetV) -> bool {
    labels_all_numeric(d.categories) && d.categories.len() == spec_effective_len(d)
        && max_label_of(d.categories, d.categories.len() as int) > 0
}

/// The x position of scatter point `i`: proportional to its parsed label in
/// numeric mode, uniformly spaced otherwise.
pub open spec fn scatter_x(d: DatasetV, vp: Viewport, pad: int, i: int) -> int {
    if scatter_numeric(d) {
        pad + (parsed_label(d.categories, i) * chart_w(vp, pad)) / max_label_of(
            d.categories,
            d.categories.len() as int,
        )
    } else {
        index_x(d, vp, pad, i)
    }
}

/// Every `stride`-th label is drawn, so that at most about five labels
/// appear on a dense chart.
pub open spec fn label_stride(n: int) -> int {
    if n / 5 > 1 {
        n / 5
    } else {
        1
    }
}

/// The primitives of scatter point `i`: its circle, and its category label
/// when the thinning rule selects it.
pub open spec fn scatter_item(d: DatasetV, vp: Viewport, pad: int, maxv: int, i: int) -> Seq<
    PrimV,
> {
    let n = spec_effective_len(d);
    let x = scatter_x(d, vp, pad, i);
    let y = point_y(d, vp, pad, maxv, i);
    let c = seq![PrimV::Circle { cx: x, cy: y, radius: 5000, color: data_color() }];
    if i % label_stride(n) == 0 || n <= 5 {
        c + seq![spec_x_label(d.categories[i], x, chart_bottom(vp, pad) + 20000)]
    } else {
        c
    }
}

/// The scatter primitives for the first `k` points.
pub open spec fn scatter_prims(d: DatasetV, vp: Viewport, pad: int, maxv: int, k: int) -> Seq<
    PrimV,
>
    decreases k,
{
    if k <= 0 {
        Seq::empty()
    } else {
        scatter_prims(d, vp, pad, maxv, k - 1) + scatter_item(d, vp, pad, maxv, k - 1)
    }
}

/// Scans the category labels: whether all parse as numerals, and the
/// largest parsed value floored at zero.
fn scan_labels(d: &Dataset) -> (r: (bool, i64))
    ensures
        r.0 == labels_all_numeric(d@.categories),
        r.0 ==> r.1 == max_label_of(d@.categories, d@.categories.len() as int),
        r.0 ==> 0 <= r.1 <= VALUE_LIMIT,
{
    let mut all_num = true;
    let mut maxx: i64 = 0;
    let mut i: usize = 0;
    while i < d.categories.len()
        invariant
            0 <= i <= d.categories@.len(),
            all_num ==> forall|j: int| 0 <= j < i ==> crate::numeral::parsed_value(
                #[trigger] d@.categories[j],
            ) is Some,
            all_num ==> maxx == max_label_of(d@.categories, i as int),
            all_num ==> 0 <= maxx <= VALUE_LIMIT,
            !all_num ==> !labels_all_numeric(d@.categories),
        decreases d.categories@.len() - i,
    {
        proof {
            assert(d@.categories[i as int] == d.categories@[i as int]@);
        }
        match crate::numeral::parse_fixed(d.categories[i].as_str()) {
            Some(v) => {
                if all_num {
                    if v > maxx {
                        maxx = v;
                    }
                }
            },
            None => {
                all_num = false;
            },
        }
        i = i + 1;
    }
    (all_num, maxx)
}

/// Lays out a scatter chart: a circle per point, labels thinned on dense
/// charts, with numeric x positioning when every label is a numeral.
pub fn scatter_chart(d: &Dataset, vp: Viewport, padding: i64, max_value: i64) -> (plan: Vec<
    Primitive,
>)
    requires
        d.well_formed(),
        viewport_valid(vp),
        padding_fits(vp, padding),
        0 < max_value <= VALUE_LIMIT,
    ensures
        plan_matches(
            plan@,
            scatter_prims(d@, vp, padding as int, max_value as int, spec_effective_len(d@)),
        ),
{
    let n = d.effective_len();
    let mut plan: Vec<Primitive> = Vec::new();
    if n == 0 {
        return plan;
    }
    let cw: i64 = vp.width - 2 * padding;
    let ch: i64 = vp.height - 2 * padding;
    let bottom: i64 = vp.height - padding;
    let (all_num, maxx) = scan_labels(d);
    let use_numeric = all_num && d.categories.len() == n && maxx > 0;
    proof {
        assert(use_numeric == scatter_numeric(d@));
    }
    let xs = x_step(vp, padding, n);
    let stride: usize = if n / 5 > 1 {
        n / 5
    } else {
        1
    };
    let mut i: usize = 0;
    while i < n
        invariant
            d.well_formed(),
            viewport_valid(vp),
            padding_fits(vp, padding),
            0 < max_value <= VALUE_LIMIT,
            n == spec_effective_len(d@),
            n > 0,
            0 <= i <= n,
            cw == chart_w(vp, padding as int),
            ch == chart_h(vp, padding as int),
            0 <= ch <= DIM_LIMIT,
            0 <= cw <= DIM_LIMIT,
            bottom == chart_bottom(vp, padding as int),
            xs == x_step_of(vp, padding as int, n as int),
            0 <= xs <= 10_000_000,
            stride == label_stride(n as int),
            stride >= 1,
            use_numeric == scatter_numeric(d@),
            use_numeric ==> 0 < maxx <= VALUE_LIMIT && maxx == max_label_of(
                d@.categories,
                d@.categories.len() as int,
            ),
            plan_matches(
                plan@,
                scatter_prims(d@, vp, padding as int, max_value as int, i as int),
            ),
        decreases n - i,
    {
        proof {
            assert(d@.categories[i as int] == d.categories@[i as int]@);
        }
        let xi: i64;
        if use_numeric {
            let xv = match crate::numeral::parse_fixed(d.categories[i].as_str()) {
                Some(v) => v,
                None => {
                    proof {
                        assert(false);
                    }
                    0
                },
            };
            proof {
                assert(-10_000_000_000_000_000 <= (xv as int) * (cw as int)
                    <= 10_000_000_000_000_000) by (nonlinear_arith)
                    requires
                        -1_000_000_000 <= xv as int <= 1_000_000_000,
                        0 <= cw as int <= 10_000_000;
            }
            xi = padding + div_pos(xv * cw, maxx);
        } else {
            proof {
                assert(0 <= (i as int) * (xs as int) <= 10_000_000_000_000_000)
                    by (nonlinear_arith)
                    requires 0 <= i as int <= 1_000_000_000 && 0 <= xs as int <= 10_000_000;
            }
            xi = padding + (i as i64) * xs;
        }
        let v = d.values[i];
        let h = value_height(v, max_value, ch);
        let y: i64 = bottom - h;
        let ghost pre = plan@;
        plan.push(
            Primitive::Circle {
                cx: xi,
                cy: y,
                radius: 5000,
                color: Color { r: 200, g: 600, b: 900, a: 1000 },
            },
        );
        let labelled = i % stride == 0 || n <= 5;
        if labelled {
            plan.push(x_label(clone_string(&d.categories[i]), xi, bottom + 20000));
        }
        proof {
            let pad = padding as int;
            let maxv = max_value as int;
            let item = scatter_item(d@, vp, pad, maxv, i as int);
            let m = scatter_prims(d@, vp, pad, maxv, i as int + 1);
            assert(m == scatter_prims(d@, vp, pad, maxv, i as int) + item);
            assert(d@.values[i as int] == d.values@[i as int]);
            assert(xi as int == scatter_x(d@, vp, pad, i as int));
            assert(labelled == (i as int % label_stride(n as int) == 0 || n <= 5));
            assert(plan@[pre.len() as int]@ == item[0]);
            if labelled {
                assert(plan@[pre.len() as int + 1]@ == item[1]);
            }
            assert forall|j: int| 0 <= j < plan@.len() implies #[trigger] plan@[j]@ == m[j] by {
                if j < pre.len() {
                    assert(plan@[j] == pre[j]);
                }
            }
        }
        i = i + 1;
    }
    plan
}

/// The data primitives of a dataset under its chart kind.
pub open spec fn chart_prims(d: DatasetV, vp: Viewport, pad: int, maxv: int) -> Seq<PrimV> {
    match d.chart_type {
        ChartKind::Bar => bar_prims(d, vp, pad, maxv, spec_effective_len(d)),
        ChartKind::Line => line_prims(d, vp, pad, maxv),
        ChartKind::Scatter => scatter_prims(d, vp, pad, maxv, spec_effective_len(d)),
        ChartKind::Area => area_prims(d, vp, pad, maxv),
        ChartKind::Histogram => hist_prims(d, vp, pad, maxv, d.values.len() as int),
    }
}

/// The full geometry plan of one render call: the no-data placeholder when
/// either series is empty; otherwise the chart's data primitives (none when
/// the scale maximum is zero) with the axis drawn last, on top.
pub open spec fn render_spec(d: DatasetV, vp: Viewport, pad: int) -> Seq<PrimV> {
    if d.categories.len() == 0 || d.values.len() == 0 {
        seq![no_data_prim(vp)]
    } else {
        let maxv = max_value_of(d.values);
        if maxv == 0 {
            seq![axis_prim(vp, pad)]
        } else {
            chart_prims(d, vp, pad, maxv) + seq![axis_prim(vp, pad)]
        }
    }
}

/// Renders a dataset into its geometry plan: a pure function of the dataset
/// and the viewport, recomputed from scratch on every call.
pub fn render(d: &Dataset, vp: Viewport, padding: i64) -> (plan: Vec<Primitive>)
    requires
        d.well_formed(),
        viewport_valid(vp),
        padding_fits(vp, padding),
    ensures
        plan_matches(plan@, render_spec(d@, vp, padding as int)),
{
    let mut plan: Vec<Primitive> = Vec::new();
    if d.categories.len() == 0 || d.values.len() == 0 {
        plan.push(no_data_primitive(vp));
        return plan;
    }
    let maxv = d.max_value();
    if maxv == 0 {
        plan.push(axis_primitive(vp, padding));
        return plan;
    }
    let mut plan = match d.chart_type {
        ChartKind::Bar => bar_chart(d, vp, padding, maxv),
        ChartKind::Line => line_chart(d, vp, padding, maxv),
        ChartKind::Scatter => scatter_chart(d, vp, padding, maxv),
        ChartKind::Area => area_chart(d, vp, padding, maxv),
        ChartKind::Histogram => histogram(d, vp, padding, maxv),
    };
    let ghost data_model = chart_prims(d@, vp, padding as int, maxv as int);
    let ghost pre = plan@;
    plan.push(axis_primitive(vp, padding));
    proof {
        let m = render_spec(d@, vp, padding as int);
        assert(m == data_model + seq![axis_prim(vp, padding as int)]);
        assert(plan@[pre.len() as int]@ == axis_prim(vp, padding as int));
        assert forall|j: int| 0 <= j < plan@.len() implies #[trigger] plan@[j]@ == m[j] by {
            if j < pre.len() {
                assert(plan@[j] == pre[j]);
            }
        }
    }
    plan
}

} // verus!
