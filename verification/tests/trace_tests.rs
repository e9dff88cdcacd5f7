use rune_kit::image::{trace_settings, TraceArgs, TraceColorMode, TraceCurveMode, TraceHierarchy};
use rune_kit::text::{parse_i32, parse_usize};

fn chars(s: &str) -> Vec<char> {
    s.chars().collect()
}

fn no_args() -> TraceArgs {
    TraceArgs {
        color_mode: None,
        hierarchical: None,
        curve_mode: None,
        color_precision: None,
        filter_speckle: None,
        layer_difference: None,
        corner_threshold: None,
        splice_threshold: None,
        max_iterations: None,
        path_precision: None,
    }
}

#[test]
fn signed_numbers_parse_as_std_does() {
    for text in ["0", "42", "-17", "+8", "2147483647", "-2147483648", "2147483648", "-2147483649", "-", "+", "", "-+3", "+-3", " 5", "1e3", "007"] {
        assert_eq!(parse_i32(&chars(text)), text.parse::<i32>().ok(), "{:?}", text);
    }
}

#[test]
fn word_sized_numbers_parse_as_std_does() {
    for text in ["0", "64", "+12", "-1", "", "18446744073709551615", "18446744073709551616", "4x"] {
        assert_eq!(parse_usize(&chars(text)), text.parse::<usize>().ok(), "{:?}", text);
    }
}

#[test]
fn absent_trace_options_keep_defaults() {
    let s = trace_settings(&no_args());
    assert_eq!(s.color_mode, None);
    assert_eq!(s.hierarchical, None);
    assert_eq!(s.curve_mode, None);
    assert_eq!(s.color_precision, None);
    assert_eq!(s.path_precision, None);
}

#[test]
fn trace_modes_are_read_in_any_case() {
    let mut a = no_args();
    a.color_mode = Some("BW".to_string());
    a.hierarchical = Some("Cutout".to_string());
    a.curve_mode = Some("PIXEL".to_string());
    let s = trace_settings(&a);
    assert_eq!(s.color_mode, Some(TraceColorMode::Binary));
    assert_eq!(s.hierarchical, Some(TraceHierarchy::Cutout));
    assert_eq!(s.curve_mode, Some(TraceCurveMode::Pixel));

    a.color_mode = Some("rainbow".to_string());
    a.hierarchical = Some("layered".to_string());
    a.curve_mode = Some("Polygon".to_string());
    let s = trace_settings(&a);
    assert_eq!(s.color_mode, Some(TraceColorMode::Color));
    assert_eq!(s.hierarchical, Some(TraceHierarchy::Stacked));
    assert_eq!(s.curve_mode, Some(TraceCurveMode::Polygon));

    a.curve_mode = Some("smooth".to_string());
    assert_eq!(trace_settings(&a).curve_mode, Some(TraceCurveMode::Spline));
}

#[test]
fn trace_numbers_that_do_not_parse_keep_defaults() {
    let mut a = no_args();
    a.color_precision = Some("-3".to_string());
    a.filter_speckle = Some("-3".to_string());
    a.layer_difference = Some("sixteen".to_string());
    a.corner_threshold = Some("60".to_string());
    a.splice_threshold = Some("45".to_string());
    a.max_iterations = Some("12".to_string());
    a.path_precision = Some("4294967296".to_string());
    let s = trace_settings(&a);
    assert_eq!(s.color_precision, Some(-3));
    assert_eq!(s.filter_speckle, None);
    assert_eq!(s.layer_difference, None);
    assert_eq!(s.corner_threshold, Some(60));
    assert_eq!(s.splice_threshold, Some(45));
    assert_eq!(s.max_iterations, Some(12));
    assert_eq!(s.path_precision, None);
}
