use miniplot::dataset::{ChartKind, Dataset};
use miniplot::launch::{
    launch_failure_message, launch_success_message, legacy_failure_message,
    legacy_success_message, viewer_candidates,
};
use miniplot::numeral::{format_tenths, parse_fixed};
use miniplot::parse::{error_dataset, parse_dataset, split_str, trim_str};

#[test]
fn numerals_parse_to_milli_units() {
    assert_eq!(parse_fixed("30"), Some(30_000));
    assert_eq!(parse_fixed("3.14"), Some(3_140));
    assert_eq!(parse_fixed("-2.5"), Some(-2_500));
    assert_eq!(parse_fixed("+7"), Some(7_000));
    assert_eq!(parse_fixed("1."), Some(1_000));
    assert_eq!(parse_fixed(".5"), Some(500));
    assert_eq!(parse_fixed("0.0001"), Some(0));
    assert_eq!(parse_fixed("1000000"), Some(1_000_000_000));
}

#[test]
fn non_numerals_parse_to_nothing() {
    assert_eq!(parse_fixed(""), None);
    assert_eq!(parse_fixed("abc"), None);
    assert_eq!(parse_fixed("."), None);
    assert_eq!(parse_fixed("+"), None);
    assert_eq!(parse_fixed("1,2"), None);
    assert_eq!(parse_fixed("1e3"), None);
    assert_eq!(parse_fixed("12 "), None);
    // beyond the representable range
    assert_eq!(parse_fixed("2000000"), None);
    assert_eq!(parse_fixed("99999999999999999999"), None);
}

#[test]
fn values_format_to_one_decimal_place() {
    assert_eq!(format_tenths(30_000), "30.0");
    assert_eq!(format_tenths(12_345), "12.3");
    assert_eq!(format_tenths(99), "0.1");
    assert_eq!(format_tenths(-40), "0.0");
    assert_eq!(format_tenths(-2_500), "-2.5");
    assert_eq!(format_tenths(0), "0.0");
    assert_eq!(format_tenths(1_000_000_000), "1000000.0");
}

#[test]
fn dataset_text_parses_title_labels_and_values() {
    let d = parse_dataset("Sales\nA, B ,C\n30, x, 50.5\n", ChartKind::Bar);
    assert_eq!(d.title, "Sales");
    assert_eq!(d.categories, vec!["A", "B", "C"]);
    // the non-numeric token is dropped, shortening the series
    assert_eq!(d.values, vec![30_000, 50_500]);
    assert_eq!(d.chart_type, ChartKind::Bar);
}

#[test]
fn dataset_text_strips_carriage_returns() {
    let d = parse_dataset("T\r\nA,B\r\n1,2\r\n", ChartKind::Line);
    assert_eq!(d.title, "T");
    assert_eq!(d.categories, vec!["A", "B"]);
    assert_eq!(d.values, vec![1_000, 2_000]);
}

#[test]
fn short_dataset_text_degrades_to_error_dataset() {
    let d = parse_dataset("Only\nTwo", ChartKind::Scatter);
    assert_eq!(d.title, "Error: Invalid data format");
    assert!(d.categories.is_empty());
    assert!(d.values.is_empty());
    assert_eq!(d.chart_type, ChartKind::Scatter);
    let e = parse_dataset("", ChartKind::Area);
    assert_eq!(e.title, "Error: Invalid data format");
}

#[test]
fn unreadable_source_dataset_is_error_titled() {
    let d = error_dataset(ChartKind::Histogram);
    assert_eq!(d.title, "Error loading data");
    assert!(d.categories.is_empty());
    assert!(d.values.is_empty());
    assert_eq!(d.chart_type, ChartKind::Histogram);
}

#[test]
fn splitting_keeps_empty_pieces() {
    assert_eq!(split_str("a,b,", ','), vec!["a", "b", ""]);
    assert_eq!(split_str("", ','), vec![""]);
    assert_eq!(split_str("one", ','), vec!["one"]);
}

#[test]
fn trimming_removes_surrounding_blanks() {
    assert_eq!(trim_str("  a b  "), "a b");
    assert_eq!(trim_str("\t x"), "x");
    assert_eq!(trim_str("   "), "");
    assert_eq!(trim_str("y"), "y");
}

#[test]
fn window_title_names_tool_kind_and_dataset() {
    let d = Dataset {
        title: "Quarterly".to_string(),
        categories: vec![],
        values: vec![],
        chart_type: ChartKind::Scatter,
    };
    assert_eq!(d.window_title(), "DuckDB Scatter - Quarterly");
}

#[test]
fn viewer_candidates_follow_the_fallback_chain() {
    let with_override = viewer_candidates(Some("/opt/viewer".to_string()));
    assert_eq!(
        with_override,
        vec!["/opt/viewer", "./chart_viewer", "chart_viewer"]
    );
    let without = viewer_candidates(None);
    assert_eq!(
        without,
        vec![
            "./chart_viewer/target/release/chart_viewer",
            "./chart_viewer",
            "chart_viewer"
        ]
    );
}

#[test]
fn launch_messages_report_selector_and_error() {
    assert_eq!(launch_success_message("bar"), "bar chart viewer launched");
    assert_eq!(
        launch_failure_message("line", "not found"),
        "Failed to launch line viewer: not found. Set CHART_VIEWER_PATH environment variable."
    );
    assert_eq!(legacy_success_message(), "Chart viewer launched");
    assert_eq!(
        legacy_failure_message("no such file"),
        "Failed to launch chart viewer: no such file. Set CHART_VIEWER_PATH environment variable."
    );
}
