use voicevox_playground_tui::lines::{
    compress_trailing_empty, ensure_nonempty_lines, nearest_vis_pos, visible_line_indices,
};

fn v(items: &[&str]) -> Vec<String> {
    items.iter().map(|s| s.to_string()).collect()
}

#[test]
fn compress_empty_input_returns_single_empty_line() {
    let result = compress_trailing_empty(vec![]);
    assert_eq!(result, vec![""]);
}

#[test]
fn compress_single_non_empty_line_appends_trailing_empty() {
    let result = compress_trailing_empty(vec!["hello".to_string()]);
    assert_eq!(result, vec!["hello", ""]);
}

#[test]
fn compress_single_empty_line_unchanged() {
    let result = compress_trailing_empty(vec!["".to_string()]);
    assert_eq!(result, vec![""]);
}

#[test]
fn compress_multiple_trailing_empty_lines_collapsed_to_one() {
    let result = compress_trailing_empty(v(&["hello", "", "", ""]));
    assert_eq!(result, vec!["hello", ""]);
}

#[test]
fn compress_no_trailing_empty_appends_one() {
    let result = compress_trailing_empty(v(&["hello", "world"]));
    assert_eq!(result, vec!["hello", "world", ""]);
}

#[test]
fn compress_preserves_internal_empty_lines() {
    let result = compress_trailing_empty(v(&["a", "", "b"]));
    assert_eq!(result, vec!["a", "", "b", ""]);
}

#[test]
fn compress_whitespace_only_line_is_treated_as_empty() {
    let result = compress_trailing_empty(v(&["hello", "  ", "   "]));
    assert_eq!(result, vec!["hello", ""]);
}

#[test]
fn compress_is_idempotent_on_examples() {
    for input in [v(&[]), v(&["a"]), v(&["a", " ", ""]), v(&["  "]), v(&["x", "", "y"])] {
        let once = compress_trailing_empty(input);
        let twice = compress_trailing_empty(once.clone());
        assert_eq!(once, twice);
    }
}

#[test]
fn ensure_empty_input_returns_single_empty_line() {
    let result = ensure_nonempty_lines(vec![]);
    assert_eq!(result, vec![""]);
}

#[test]
fn ensure_single_non_empty_line_unchanged() {
    let result = ensure_nonempty_lines(vec!["hello".to_string()]);
    assert_eq!(result, vec!["hello"]);
}

#[test]
fn ensure_single_empty_line_unchanged() {
    let result = ensure_nonempty_lines(vec!["".to_string()]);
    assert_eq!(result, vec![""]);
}

#[test]
fn ensure_multiple_trailing_empty_lines_unchanged() {
    let result = ensure_nonempty_lines(v(&["hello", "", "", ""]));
    assert_eq!(result, vec!["hello", "", "", ""]);
}

#[test]
fn ensure_no_trailing_empty_unchanged() {
    let result = ensure_nonempty_lines(v(&["hello", "world"]));
    assert_eq!(result, vec!["hello", "world"]);
}

#[test]
fn ensure_preserves_internal_empty_lines() {
    let result = ensure_nonempty_lines(v(&["a", "", "b"]));
    assert_eq!(result, vec!["a", "", "b"]);
}

#[test]
fn ensure_preserves_whitespace_only_lines() {
    let result = ensure_nonempty_lines(v(&["hello", "  ", "   "]));
    assert_eq!(result, vec!["hello", "  ", "   "]);
}

#[test]
fn utils_nearest_vis_pos_empty_visible_returns_zero() {
    assert_eq!(nearest_vis_pos(3, &[]), 0);
}

#[test]
fn utils_nearest_vis_pos_cursor_in_visible_returns_its_position() {
    let visible = vec![0, 2, 4];
    assert_eq!(nearest_vis_pos(2, &visible), 1);
}

#[test]
fn utils_nearest_vis_pos_cursor_not_in_visible_returns_nearest() {
    let visible = vec![0, 2, 5];
    assert_eq!(nearest_vis_pos(3, &visible), 1);
}

#[test]
fn utils_nearest_vis_pos_cursor_before_all_visible_returns_first() {
    let visible = vec![5, 10, 15];
    assert_eq!(nearest_vis_pos(0, &visible), 0);
}

#[test]
fn utils_nearest_vis_pos_cursor_after_all_visible_returns_last() {
    let visible = vec![0, 1, 2];
    assert_eq!(nearest_vis_pos(100, &visible), 2);
}

#[test]
fn utils_nearest_vis_pos_single_element_always_returns_zero() {
    let visible = vec![7];
    assert_eq!(nearest_vis_pos(0, &visible), 0);
    assert_eq!(nearest_vis_pos(7, &visible), 0);
    assert_eq!(nearest_vis_pos(99, &visible), 0);
}

#[test]
fn nearest_vis_pos_tie_picks_first() {
    assert_eq!(nearest_vis_pos(3, &[1, 5]), 0);
}

#[test]
fn visible_line_indices_hides_space_led_lines_when_folded() {
    let lines = v(&["a", " b", "c", " d"]);
    assert_eq!(visible_line_indices(&lines, true), vec![0, 2]);
    assert_eq!(visible_line_indices(&lines, false), vec![0, 1, 2, 3]);
}

#[test]
fn nearest_vis_pos_empty_visible_returns_zero() {
    assert_eq!(nearest_vis_pos(3, &[]), 0);
}

#[test]
fn nearest_vis_pos_cursor_in_visible_returns_its_position() {
    let visible = vec![0, 2, 4];
    assert_eq!(nearest_vis_pos(2, &visible), 1);
}

#[test]
fn nearest_vis_pos_cursor_not_in_visible_returns_nearest() {
    let visible = vec![0, 2, 5];
    assert_eq!(nearest_vis_pos(3, &visible), 1);
}

#[test]
fn nearest_vis_pos_cursor_before_all_visible_returns_first() {
    let visible = vec![5, 10, 15];
    assert_eq!(nearest_vis_pos(0, &visible), 0);
}

#[test]
fn nearest_vis_pos_cursor_after_all_visible_returns_last() {
    let visible = vec![0, 1, 2];
    assert_eq!(nearest_vis_pos(100, &visible), 2);
}

#[test]
fn nearest_vis_pos_single_element_always_returns_zero() {
    let visible = vec![7];
    assert_eq!(nearest_vis_pos(0, &visible), 0);
    assert_eq!(nearest_vis_pos(7, &visible), 0);
    assert_eq!(nearest_vis_pos(99, &visible), 0);
}
