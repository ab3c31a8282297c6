//! Engine-wide guarantees, each proved from the render contracts alone.

use vstd::prelude::*;
use crate::dataset::{DatasetV, ChartKind, kind_of, spec_effective_len, max_value_of};
use crate::geom::{Viewport, Primitive, PrimV, PointV, plan_matches};
use crate::layout::{
    render_spec, line_prims, curve_points, line_marks, no_data_prim, axis_prim, scatter_numeric,
    scatter_x, parsed_label, max_label_of, index_x, chart_w,
};

verus! {

/// A dataset with nothing to render (either series empty) produces exactly
/// one primitive, the placeholder text: no rectangle, polyline, circle or
/// polygon.
pub proof fn lemma_empty_dataset_placeholder(d: DatasetV, vp: Viewport, pad: int)
    requires
        spec_effective_len(d) == 0,
    ensures
        render_spec(d, vp, pad).len() == 1,
        render_spec(d, vp, pad)[0] == no_data_prim(vp),
        render_spec(d, vp, pad)[0] is Text,
{
}

/// A dataset whose scale maximum is zero produces no data primitives, but
/// still the axis.
pub proof fn lemma_zero_scale_axes_only(d: DatasetV, vp: Viewport, pad: int)
    requires
        d.categories.len() > 0,
        d.values.len() > 0,
        max_value_of(d.values) == 0,
    ensures
        render_spec(d, vp, pad).len() == 1,
        render_spec(d, vp, pad)[0] == axis_prim(vp, pad),
{
}

/// A line chart of a single point draws exactly one marker circle, and its
/// polyline holds a single point, so no connecting segment exists.
pub proof fn lemma_line_single_point(d: DatasetV, vp: Viewport, pad: int, maxv: int)
    requires
        spec_effective_len(d) == 1,
    ensures
        line_prims(d, vp, pad, maxv).len() == 4,
        line_prims(d, vp, pad, maxv)[0] is Polyline,
        line_prims(d, vp, pad, maxv)[0]->Polyline_points.len() == 1,
        line_prims(d, vp, pad, maxv)[1] is Circle,
        !(line_prims(d, vp, pad, maxv)[2] is Circle),
        !(line_prims(d, vp, pad, maxv)[3] is Circle),
{
    let ps = line_prims(d, vp, pad, maxv);
    assert(curve_points(d, vp, pad, maxv, 1) == curve_points(d, vp, pad, maxv, 0).push(
        PointV { x: index_x(d, vp, pad, 0), y: crate::layout::point_y(d, vp, pad, maxv, 0) },
    ));
    assert(line_marks(d, vp, pad, maxv, 1) == line_marks(d, vp, pad, maxv, 0)
        + crate::layout::line_mark_item(d, vp, pad, maxv, 0));
    assert(ps[1] == crate::layout::line_mark_item(d, vp, pad, maxv, 0)[0]);
    assert(ps[2] == crate::layout::line_mark_item(d, vp, pad, maxv, 0)[1]);
    assert(ps[3] == crate::layout::line_mark_item(d, vp, pad, maxv, 0)[2]);
}

/// The two scatter positioning modes: with all-numeric labels (and a
/// positive largest label) a point sits proportionally to its parsed label;
/// otherwise points are spaced uniformly.
pub proof fn lemma_scatter_positioning(d: DatasetV, vp: Viewport, pad: int, i: int)
    ensures
        scatter_numeric(d) ==> scatter_x(d, vp, pad, i) == pad + (parsed_label(d.categories, i)
            * chart_w(vp, pad)) / max_label_of(d.categories, d.categories.len() as int),
        !scatter_numeric(d) ==> scatter_x(d, vp, pad, i) == index_x(d, vp, pad, i),
{
}

/// Rendering is deterministic: two plans realizing the same render model
/// agree primitive for primitive, so rendering the same dataset twice with
/// an unchanged viewport gives identical plans.
pub proof fn lemma_render_deterministic(
    d: DatasetV,
    vp: Viewport,
    pad: int,
    p1: Seq<Primitive>,
    p2: Seq<Primitive>,
)
    requires
        plan_matches(p1, render_spec(d, vp, pad)),
        plan_matches(p2, render_spec(d, vp, pad)),
    ensures
        p1.len() == p2.len(),
        forall|j: int| 0 <= j < p1.len() ==> #[trigger] p1[j]@ == p2[j]@,
{
}

/// An unrecognized chart selector renders exactly as a bar chart.
pub proof fn lemma_unknown_kind_renders_bar(s: Seq<char>, d: DatasetV, vp: Viewport, pad: int)
    requires
        s != "line"@,
        s != "scatter"@,
        s != "area"@,
        s != "histogram"@,
        d.chart_type == kind_of(s),
    ensures
        d.chart_type == ChartKind::Bar,
        render_spec(d, vp, pad) == render_spec(
            DatasetV { chart_type: ChartKind::Bar, ..d },
            vp,
            pad,
        ),
{
    assert(DatasetV { chart_type: ChartKind::Bar, ..d } == d);
}

} // verus!
