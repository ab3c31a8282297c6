use miniplot::dataset::{ChartKind, Dataset, chart_kind_of};
use miniplot::geom::{Primitive, Viewport};
use miniplot::layout::render;

fn vp800x600() -> Viewport {
    Viewport { width: 800_000, height: 600_000 }
}

const PAD: i64 = 60_000;

fn dataset(kind: ChartKind, cats: &[&str], vals: &[i64]) -> Dataset {
    Dataset {
        title: "t".to_string(),
        categories: cats.iter().map(|c| c.to_string()).collect(),
        values: vals.to_vec(),
        chart_type: kind,
    }
}

fn rect_fields(p: &Primitive) -> (i64, i64, i64, i64) {
    match p {
        Primitive::Rect { x, y, w, h, .. } => (*x, *y, *w, *h),
        other => panic!("expected a rectangle, got {:?}", other),
    }
}

fn circle_center(p: &Primitive) -> (i64, i64) {
    match p {
        Primitive::Circle { cx, cy, .. } => (*cx, *cy),
        other => panic!("expected a circle, got {:?}", other),
    }
}

#[test]
fn empty_categories_gives_single_placeholder_text() {
    let d = dataset(ChartKind::Bar, &[], &[10_000, 20_000]);
    let plan = render(&d, vp800x600(), PAD);
    assert_eq!(plan.len(), 1);
    match &plan[0] {
        Primitive::Text { content, x, y, .. } => {
            assert_eq!(content, "No data to display");
            assert_eq!(*x, 400_000);
            assert_eq!(*y, 300_000);
        },
        other => panic!("expected text, got {:?}", other),
    }
}

#[test]
fn empty_values_gives_single_placeholder_text() {
    let d = dataset(ChartKind::Line, &["A", "B"], &[]);
    let plan = render(&d, vp800x600(), PAD);
    assert_eq!(plan.len(), 1);
    assert!(matches!(&plan[0], Primitive::Text { .. }));
}

#[test]
fn zero_max_value_draws_only_axes() {
    let d = dataset(ChartKind::Bar, &["A", "B"], &[0, 0]);
    let plan = render(&d, vp800x600(), PAD);
    assert_eq!(plan.len(), 1);
    match &plan[0] {
        Primitive::Polyline { points, stroke_width, .. } => {
            assert_eq!(*stroke_width, 2_000);
            assert_eq!(points.len(), 3);
            assert_eq!((points[0].x, points[0].y), (60_000, 60_000));
            assert_eq!((points[1].x, points[1].y), (60_000, 540_000));
            assert_eq!((points[2].x, points[2].y), (740_000, 540_000));
        },
        other => panic!("expected axis polyline, got {:?}", other),
    }
}

#[test]
fn negative_values_alone_still_draw_only_axes() {
    let d = dataset(ChartKind::Bar, &["A", "B"], &[-5_000, -1_000]);
    let plan = render(&d, vp800x600(), PAD);
    assert_eq!(plan.len(), 1);
    assert!(matches!(&plan[0], Primitive::Polyline { .. }));
}

#[test]
fn bar_chart_scales_bars_against_the_maximum() {
    let d = dataset(ChartKind::Bar, &["A", "B", "C"], &[30_000, 50_000, 80_000]);
    let plan = render(&d, vp800x600(), PAD);
    // three bars of three primitives each, then the axis
    assert_eq!(plan.len(), 10);
    let (x0, y0, w0, h0) = rect_fields(&plan[0]);
    // 0.8 * 480 * 30/80 = 144 pixels
    assert_eq!(h0, 144_000);
    assert_eq!(y0, 540_000 - 144_000);
    assert_eq!(x0, 60_000);
    // bar width: 680 * 2/3 per category, i.e. 1360000/9
    assert_eq!(w0, 151_111);
    let (_, _, _, h1) = rect_fields(&plan[3]);
    assert_eq!(h1, 240_000);
    let (x2, y2, _, h2) = rect_fields(&plan[6]);
    // the tallest bar reaches 0.8 * 480 = 384 pixels
    assert_eq!(h2, 384_000);
    assert_eq!(y2, 540_000 - 384_000);
    assert_eq!(x2, 60_000 + 151_111 * 3);
    // axis drawn last, on top
    assert!(matches!(&plan[9], Primitive::Polyline { .. }));
}

#[test]
fn bar_chart_labels_sit_under_axis_and_above_bars() {
    let d = dataset(ChartKind::Bar, &["A", "B", "C"], &[30_000, 50_000, 80_000]);
    let plan = render(&d, vp800x600(), PAD);
    match &plan[1] {
        Primitive::Text { content, x, y, .. } => {
            assert_eq!(content, "A");
            assert_eq!(*x, 60_000 + 151_111 / 2);
            assert_eq!(*y, 560_000);
        },
        other => panic!("expected category label, got {:?}", other),
    }
    match &plan[2] {
        Primitive::Text { content, y, .. } => {
            assert_eq!(content, "30.0");
            assert_eq!(*y, 396_000 - 5_000);
        },
        other => panic!("expected value label, got {:?}", other),
    }
}

#[test]
fn bar_chart_truncates_to_the_shorter_series() {
    let d = dataset(ChartKind::Bar, &["A"], &[10_000, 20_000]);
    let plan = render(&d, vp800x600(), PAD);
    // one bar only, plus the axis
    assert_eq!(plan.len(), 4);
}

#[test]
fn line_chart_single_point_has_marker_but_no_segment() {
    let d = dataset(ChartKind::Line, &["A"], &[10_000]);
    let plan = render(&d, vp800x600(), PAD);
    assert_eq!(plan.len(), 5);
    match &plan[0] {
        Primitive::Polyline { points, .. } => {
            assert_eq!(points.len(), 1);
            assert_eq!((points[0].x, points[0].y), (60_000, 156_000));
        },
        other => panic!("expected polyline, got {:?}", other),
    }
    let circles = plan
        .iter()
        .filter(|p| matches!(p, Primitive::Circle { .. }))
        .count();
    assert_eq!(circles, 1);
    assert_eq!(circle_center(&plan[1]), (60_000, 156_000));
}

#[test]
fn line_chart_connects_points_in_order() {
    let d = dataset(ChartKind::Line, &["A", "B", "C"], &[30_000, 50_000, 80_000]);
    let plan = render(&d, vp800x600(), PAD);
    // polyline, three points of three primitives each, axis
    assert_eq!(plan.len(), 11);
    match &plan[0] {
        Primitive::Polyline { points, .. } => {
            assert_eq!(points.len(), 3);
            let xs = 680_000 / 2;
            assert_eq!(points[0].x, 60_000);
            assert_eq!(points[1].x, 60_000 + xs);
            assert_eq!(points[2].x, 60_000 + 2 * xs);
            assert_eq!(points[2].y, 156_000);
        },
        other => panic!("expected polyline, got {:?}", other),
    }
    assert_eq!(circle_center(&plan[1]), (60_000, 396_000));
}

#[test]
fn scatter_numeric_labels_use_numeric_positions() {
    let d = dataset(ChartKind::Scatter, &["1", "10", "100"], &[10_000, 20_000, 30_000]);
    let plan = render(&d, vp800x600(), PAD);
    // per point a circle and a label, then the axis
    assert_eq!(plan.len(), 7);
    assert_eq!(circle_center(&plan[0]).0, 60_000 + 6_800);
    assert_eq!(circle_center(&plan[2]).0, 60_000 + 68_000);
    assert_eq!(circle_center(&plan[4]).0, 740_000);
}

#[test]
fn scatter_text_labels_use_uniform_positions() {
    let d = dataset(ChartKind::Scatter, &["A", "B", "C"], &[10_000, 20_000, 30_000]);
    let plan = render(&d, vp800x600(), PAD);
    assert_eq!(plan.len(), 7);
    assert_eq!(circle_center(&plan[0]).0, 60_000);
    assert_eq!(circle_center(&plan[2]).0, 400_000);
    assert_eq!(circle_center(&plan[4]).0, 740_000);
}

#[test]
fn scatter_modes_differ_for_nonuniform_numeric_labels() {
    let numeric = dataset(ChartKind::Scatter, &["1", "10", "100"], &[1_000, 2_000, 3_000]);
    let text = dataset(ChartKind::Scatter, &["A", "B", "C"], &[1_000, 2_000, 3_000]);
    let pn = render(&numeric, vp800x600(), PAD);
    let pt = render(&text, vp800x600(), PAD);
    assert_ne!(circle_center(&pn[0]).0, circle_center(&pt[0]).0);
    assert_ne!(circle_center(&pn[2]).0, circle_center(&pt[2]).0);
}

#[test]
fn scatter_evenly_numeric_labels_stay_proportional() {
    let d = dataset(ChartKind::Scatter, &["1", "2", "3"], &[10_000, 20_000, 30_000]);
    let plan = render(&d, vp800x600(), PAD);
    // x = padding + label/max * chart width, with milli precision
    assert_eq!(circle_center(&plan[0]).0, 60_000 + 226_666);
    assert_eq!(circle_center(&plan[2]).0, 60_000 + 453_333);
    assert_eq!(circle_center(&plan[4]).0, 740_000);
}

#[test]
fn scatter_thins_labels_on_dense_charts() {
    let cats: Vec<String> = (1..=10).map(|i| format!("c{}", i)).collect();
    let cat_refs: Vec<&str> = cats.iter().map(|s| s.as_str()).collect();
    let vals: Vec<i64> = (1..=10).map(|i| i * 1_000).collect();
    let d = dataset(ChartKind::Scatter, &cat_refs, &vals);
    let plan = render(&d, vp800x600(), PAD);
    let circles = plan
        .iter()
        .filter(|p| matches!(p, Primitive::Circle { .. }))
        .count();
    let labels = plan
        .iter()
        .filter(|p| matches!(p, Primitive::Text { .. }))
        .count();
    assert_eq!(circles, 10);
    // stride of 10/5 = 2: labels at the five even indices
    assert_eq!(labels, 5);
}

#[test]
fn area_chart_closes_polygon_at_baseline() {
    let d = dataset(ChartKind::Area, &["A", "B"], &[10_000, 20_000]);
    let plan = render(&d, vp800x600(), PAD);
    // the polygon, two labels, the axis
    assert_eq!(plan.len(), 4);
    match &plan[0] {
        Primitive::FilledPolygon { points, color } => {
            assert_eq!(points.len(), 4);
            assert_eq!((points[0].x, points[0].y), (60_000, 540_000));
            assert_eq!((points[1].x, points[1].y), (60_000, 348_000));
            assert_eq!((points[2].x, points[2].y), (740_000, 156_000));
            assert_eq!((points[3].x, points[3].y), (740_000, 540_000));
            assert_eq!(color.a, 300);
        },
        other => panic!("expected polygon, got {:?}", other),
    }
    assert!(matches!(&plan[1], Primitive::Text { .. }));
    assert!(matches!(&plan[2], Primitive::Text { .. }));
}

#[test]
fn histogram_ignores_categories_and_draws_every_value() {
    let d = dataset(ChartKind::Histogram, &["only-one"], &[10_000, 20_000]);
    let plan = render(&d, vp800x600(), PAD);
    // two bars (no labels), then the axis
    assert_eq!(plan.len(), 3);
    let (x0, y0, w0, h0) = rect_fields(&plan[0]);
    assert_eq!(x0, 60_000);
    assert_eq!(w0, 340_000 - 2_000);
    assert_eq!(h0, 192_000);
    assert_eq!(y0, 348_000);
    let (x1, _, _, h1) = rect_fields(&plan[1]);
    assert_eq!(x1, 400_000);
    assert_eq!(h1, 384_000);
}

#[test]
fn rendering_twice_gives_identical_plans() {
    for kind in [
        ChartKind::Bar,
        ChartKind::Line,
        ChartKind::Scatter,
        ChartKind::Area,
        ChartKind::Histogram,
    ] {
        let d = dataset(kind, &["1", "2", "x"], &[5_000, 0, -3_000]);
        let first = render(&d, vp800x600(), PAD);
        let second = render(&d, vp800x600(), PAD);
        assert_eq!(first, second);
    }
}

#[test]
fn unknown_selector_renders_as_bar() {
    let kind = chart_kind_of("pie");
    assert_eq!(kind, ChartKind::Bar);
    let d = dataset(kind, &["A", "B"], &[10_000, 20_000]);
    let b = dataset(ChartKind::Bar, &["A", "B"], &[10_000, 20_000]);
    assert_eq!(render(&d, vp800x600(), PAD), render(&b, vp800x600(), PAD));
}

#[test]
fn selector_strings_map_to_their_kinds() {
    assert_eq!(chart_kind_of("bar"), ChartKind::Bar);
    assert_eq!(chart_kind_of("line"), ChartKind::Line);
    assert_eq!(chart_kind_of("scatter"), ChartKind::Scatter);
    assert_eq!(chart_kind_of("area"), ChartKind::Area);
    assert_eq!(chart_kind_of("histogram"), ChartKind::Histogram);
    assert_eq!(chart_kind_of(""), ChartKind::Bar);
    assert_eq!(chart_kind_of("Line"), ChartKind::Bar);
}
