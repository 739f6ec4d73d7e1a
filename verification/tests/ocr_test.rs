use shusei::ocr::{
    ctc_collapse, decode_labels, determine_reading_order, format_text_vertical, generate_markdown,
    generate_plain_text, get_model_path, PreprocessConfig, ReadingOrder, RegionLayout,
};

struct TestRegion {
    y: f32,
    text: String,
    direction: u32,
    is_vertical: bool,
}

fn create_test_region(_x: f32, y: f32, text: &str, is_vertical: bool) -> TestRegion {
    TestRegion { y, text: text.to_string(), direction: if is_vertical { 90 } else { 0 }, is_vertical }
}

fn layouts(regions: &[TestRegion]) -> Vec<RegionLayout> {
    let mut last_y = f32::NEG_INFINITY;
    let mut out = Vec::new();
    for r in regions {
        out.push(RegionLayout {
            far_from_previous: (r.y - last_y).abs() > 50.0,
            direction: r.direction,
            is_vertical: r.is_vertical,
            text: r.text.clone(),
        });
        last_y = r.y;
    }
    out
}

#[test]
fn test_preprocess_config_default() {
    let config = PreprocessConfig::default();
    assert_eq!(config.max_size, 1024);
    assert!(config.normalize);
    assert!(!config.grayscale);
}

#[test]
fn test_generate_markdown_empty() {
    let regions: Vec<TestRegion> = Vec::new();
    let markdown = generate_markdown(&layouts(&regions)).unwrap();
    assert!(markdown.is_empty());
}

#[test]
fn test_generate_markdown_horizontal() {
    let regions = vec![create_test_region(0.0, 0.0, "Hello", false), create_test_region(100.0, 0.0, "World", false)];

    let markdown = generate_markdown(&layouts(&regions)).unwrap();
    assert!(markdown.contains("Hello"));
    assert!(markdown.contains("World"));
}

#[test]
fn test_determine_reading_order() {
    let horizontal = vec![create_test_region(0.0, 0.0, "A", false), create_test_region(100.0, 0.0, "B", false)];
    let flags: Vec<bool> = horizontal.iter().map(|r| r.is_vertical).collect();
    assert_eq!(determine_reading_order(&flags), ReadingOrder::Horizontal);

    let vertical = vec![create_test_region(0.0, 0.0, "A", true), create_test_region(0.0, 100.0, "B", true)];
    let flags: Vec<bool> = vertical.iter().map(|r| r.is_vertical).collect();
    assert_eq!(determine_reading_order(&flags), ReadingOrder::Vertical);
}

#[test]
fn reading_order_ties_and_empty_pages() {
    assert_eq!(determine_reading_order(&[true, false]), ReadingOrder::Mixed);
    assert_eq!(determine_reading_order(&[]), ReadingOrder::Horizontal);
    assert_eq!(ReadingOrder::default(), ReadingOrder::Horizontal);
}

#[test]
fn markdown_breaks_paragraphs_and_direction_changes() {
    let regions = vec![
        create_test_region(0.0, 0.0, "one", false),
        create_test_region(0.0, 10.0, "two", false),
        create_test_region(0.0, 200.0, "three", false),
        create_test_region(0.0, 210.0, "縦", true),
    ];
    let markdown = generate_markdown(&layouts(&regions)).unwrap();
    assert_eq!(markdown, "onetwo\n\nthree\n縦");
}

#[test]
fn plain_text_joins_with_spaces() {
    let texts = vec!["a".to_string(), "b c".to_string(), "".to_string()];
    assert_eq!(generate_plain_text(&texts), "a b c ");
    assert_eq!(generate_plain_text(&[]), "");
    assert_eq!(format_text_vertical("縦書き"), "縦書き");
}

#[test]
fn model_paths() {
    assert_eq!(get_model_path("detection"), "assets/ocr/models/deim-s-1024x1024.onnx");
    assert_eq!(get_model_path("recognition"), "assets/ocr/models/parseq-ndl-16x384-50-tiny-146epoch-tegaki2.onnx");
    assert_eq!(get_model_path("direction"), "assets/ocr/models/direction.onnx");
}

#[test]
fn ctc_skips_blanks_repeats_and_unknown_labels() {
    assert_eq!(ctc_collapse(&[0, 1, 1, 0, 2, 2, 9, 3], 4), vec![1, 2, 3]);
    // Only adjacent repeats collapse: a blank between two equal labels keeps both.
    assert_eq!(ctc_collapse(&[3, 0, 3], 4), vec![3, 3]);
    assert_eq!(ctc_collapse(&[2, 9, 2, 2], 4), vec![2, 2]);
    let letters: Vec<String> = ["_", "a", "b"].iter().map(|s| s.to_string()).collect();
    assert_eq!(decode_labels(&letters, &[1, 0, 1]), "aa");
    assert_eq!(shusei::ocr::kept_steps(&[1, 0, 1, 1], 3), vec![0, 2]);
    let dictionary: Vec<String> = ["", "こ", "ん", "に"].iter().map(|s| s.to_string()).collect();
    assert_eq!(decode_labels(&dictionary, &[1, 1, 2, 0, 3, 3]), "こんに");
    assert_eq!(decode_labels(&[], &[1, 2]), "");
}

#[test]
fn engine_files_and_readiness() {
    let (det, rec, dir, dict) = shusei::ocr::ocr_model_files("models");
    assert_eq!(det, "models/deim-s-1024x1024.onnx");
    assert_eq!(rec, "models/parseq-ndl-16x384-50-tiny-146epoch-tegaki2.onnx");
    assert_eq!(dir, "models/direction_classifier.onnx");
    assert_eq!(dict, "models/dict.txt");
    assert!(shusei::ocr::ocr_engine_ready(true, true).is_ok());
    assert!(shusei::ocr::ocr_engine_ready(true, false).is_err());
    assert!(shusei::ocr::check_ocr_engine_initialized(false).is_err());
    let lines = vec!["a".to_string(), "b".to_string()];
    assert_eq!(shusei::ocr::page_texts(&lines), ("a\nb".to_string(), "a b".to_string()));
}

#[test]
fn suppression_keeps_the_strongest_of_overlapping_regions() {
    // 0 overlaps 1; 1 overlaps 2; 2 is kept since 1 is suppressed.
    let overlaps = vec![
        vec![false, true, false, false],
        vec![true, false, true, false],
        vec![false, true, false, false],
        vec![false, false, false, false],
    ];
    assert_eq!(shusei::ocr::nms_keep(&overlaps), vec![true, false, true, true]);
    assert_eq!(shusei::ocr::nms_keep(&vec![]), Vec::<bool>::new());
}

#[test]
fn kept_steps_point_at_the_kept_labels() {
    assert_eq!(shusei::ocr::kept_steps(&[0, 1, 1, 0, 2, 2, 9, 3], 4), vec![1, 4, 7]);
}

#[test]
fn paragraphs_start_at_breaks() {
    let groups = shusei::ocr::group_paragraphs(vec!["a", "b", "c", "d"], &[false, false, true, false]);
    assert_eq!(groups, vec![vec!["a", "b"], vec!["c", "d"]]);
    let first_break_ignored = shusei::ocr::group_paragraphs(vec![1, 2], &[true, true]);
    assert_eq!(first_break_ignored, vec![vec![1], vec![2]]);
    assert!(shusei::ocr::group_paragraphs(Vec::<u8>::new(), &[]).is_empty());
}

#[test]
fn reading_order_sorts_rows_then_columns() {
    // (x, y) corners: two rows, the lower one listed first.
    let corners = vec![(300, 200), (10, 200), (50, 10), (5, 10)];
    let order = shusei::ocr::sort_by_reading_order(&corners, ReadingOrder::Horizontal);
    assert_eq!(order, vec![3, 2, 1, 0]);
    let mixed = shusei::ocr::sort_by_reading_order(&corners, ReadingOrder::Mixed);
    assert_eq!(mixed, vec![3, 2, 1, 0]);
}

#[test]
fn reading_order_vertical_goes_right_to_left() {
    let corners = vec![(10, 0), (500, 40), (500, 5), (-20, 0)];
    let order = shusei::ocr::sort_by_reading_order(&corners, ReadingOrder::Vertical);
    assert_eq!(order, vec![2, 1, 0, 3]);
}

#[test]
fn stable_sort_keeps_ties_in_place() {
    let keys = vec![(2, 0), (1, 5), (2, 0), (1, 5), (0, 9)];
    assert_eq!(shusei::ocr::stable_sort_positions(&keys), vec![4, 1, 3, 0, 2]);
    assert_eq!(shusei::ocr::stable_sort_positions(&[]), Vec::<usize>::new());
    let extremes = vec![(i64::MAX, 0), (i64::MIN, 0), (0, i64::MIN)];
    assert_eq!(shusei::ocr::stable_sort_positions(&extremes), vec![1, 2, 0]);
}
