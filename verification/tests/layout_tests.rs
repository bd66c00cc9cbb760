use rusl::layout::{
    col_widths_by_cols, col_widths_by_lines, determine_layout, determine_str_layout, LayoutInfo,
    MIN_COL_SIZE,
};

#[test]
fn test_determine_layout1() {
    let term_cols = 10;
    let lens = vec![5, 5, 4, 4];
    let layout_by_cols = LayoutInfo::new(2, vec![5, 4]);
    assert_eq!(determine_layout(false, term_cols, &lens), layout_by_cols);
    let layout_by_lines = LayoutInfo::new(2, vec![5, 5]);
    assert_eq!(determine_layout(true, term_cols, &lens), layout_by_lines);
}

#[test]
fn test_determine_layout2() {
    let term_cols = 13;
    let lens = vec![3, 3, 7, 7, 3];
    // by columns:
    // attempting to layout this in 2 columns fails:
    // the widths are:
    // 3   7
    // 3   3
    // 7
    // but three columns works:
    // 3   7   3
    // 3   7
    let layout_by_cols = LayoutInfo::new(3, vec![3, 7, 3]);
    assert_eq!(determine_layout(false, term_cols, &lens), layout_by_cols);
    // by lines:
    // attempting to layout this in 2 columns fails:
    // the widths are:
    // 3   3
    // 7   7
    // 3
    // three columns doesn't work either:
    // 3   3   7
    // 7   3
    // only 1 column will work
    let layout_by_lines = LayoutInfo::new(1, vec![7]);
    assert_eq!(determine_layout(true, term_cols, &lens), layout_by_lines);
}

#[test]
fn main_test_determine_layout1() {
    let term_cols = 10;
    let str_paths = vec!["aaa", "bbb", "cc", "dd"];
    let layout_by_cols = LayoutInfo::new(2, vec![5, 4]);
    assert_eq!(determine_str_layout(false, term_cols, &str_paths), layout_by_cols);
    let layout_by_lines = LayoutInfo::new(2, vec![5, 5]);
    assert_eq!(determine_str_layout(true, term_cols, &str_paths), layout_by_lines);
}

#[test]
fn main_test_determine_layout2() {
    let term_cols = 13;
    let str_paths = vec!["a", "b", "ccccc", "ddddd", "e"];
    let layout_by_cols = LayoutInfo::new(3, vec![3, 7, 3]);
    assert_eq!(determine_str_layout(false, term_cols, &str_paths), layout_by_cols);
    let layout_by_lines = LayoutInfo::new(1, vec![7]);
    assert_eq!(determine_str_layout(true, term_cols, &str_paths), layout_by_lines);
}

#[test]
fn fallback_when_nothing_fits() {
    let layout = determine_layout(false, 10, &[100]);
    assert_eq!(layout, LayoutInfo::new(1, vec![3]));
    let layout = determine_layout(true, 10, &[100]);
    assert_eq!(layout, LayoutInfo::new(1, vec![3]));
}

#[test]
fn fallback_when_terminal_narrower_than_minimum() {
    let layout = determine_layout(false, 2, &[1]);
    assert_eq!(layout, LayoutInfo::new(1, vec![3]));
}

#[test]
fn empty_input_gives_one_empty_column() {
    let layout = determine_layout(false, 80, &[]);
    assert_eq!(layout, LayoutInfo::new(1, vec![]));
    let layout = determine_layout(true, 80, &[]);
    assert_eq!(layout, LayoutInfo::new(1, vec![]));
}

#[test]
fn identical_arguments_give_identical_descriptors() {
    let lens = vec![3, 3, 7, 7, 3];
    let first = determine_layout(false, 13, &lens);
    let second = determine_layout(false, 13, &lens);
    assert_eq!(first, second);
    let first = determine_layout(true, 13, &lens);
    let second = determine_layout(true, 13, &lens);
    assert_eq!(first, second);
}

#[test]
fn fill_orders_can_disagree() {
    let lens = vec![5, 5, 4, 4];
    let by_cols = determine_layout(false, 10, &lens);
    let by_lines = determine_layout(true, 10, &lens);
    assert_ne!(by_cols, by_lines);
}

#[test]
fn narrow_items_are_padded_to_minimum_width() {
    let layout = determine_layout(false, 80, &[1, 1, 1, 1]);
    assert_eq!(layout, LayoutInfo::new(4, vec![3, 3, 3, 3]));
    for w in &layout.col_width {
        assert!(*w >= MIN_COL_SIZE);
    }
}

#[test]
fn returned_widths_fit_the_terminal() {
    let term_cols = 10;
    let layout = determine_layout(false, term_cols, &[5, 5, 4, 4]);
    let total: usize = layout.col_width.iter().sum();
    assert!(total <= term_cols);
}

#[test]
fn one_more_column_than_returned_does_not_fit() {
    let term_cols = 13;
    let lens = vec![3, 3, 7, 7, 3];
    let layout = determine_layout(false, term_cols, &lens);
    assert_eq!(layout.num_cols, 3);
    let wider: usize = col_widths_by_cols(3, 4, &lens).iter().sum();
    assert!(wider > term_cols);
}

#[test]
fn col_widths_by_cols_splits_runs_down_columns() {
    assert_eq!(col_widths_by_cols(3, 2, &[5, 5, 4, 4]), vec![5, 4]);
    assert_eq!(col_widths_by_cols(3, 3, &[3, 3, 7, 7, 3]), vec![3, 7, 3]);
    assert_eq!(col_widths_by_cols(3, 1, &[1, 2, 9]), vec![9]);
}

#[test]
fn col_widths_by_lines_strides_across_rows() {
    assert_eq!(col_widths_by_lines(3, 2, &[5, 5, 4, 4]), vec![5, 5]);
    assert_eq!(col_widths_by_lines(3, 3, &[3, 3, 7, 7, 3]), vec![7, 3, 7]);
    assert_eq!(col_widths_by_lines(3, 1, &[1, 2, 9]), vec![9]);
}

#[test]
fn default_layout_is_one_minimum_width_column() {
    assert_eq!(LayoutInfo::default(), LayoutInfo::new(1, vec![MIN_COL_SIZE]));
}

#[test]
fn new_keeps_its_fields() {
    let layout = LayoutInfo::new(2, vec![4, 6]);
    assert_eq!(layout.num_cols, 2);
    assert_eq!(layout.col_width, vec![4, 6]);
}
