use rezvan::cursorcontroller::{CursorController, CursorKey};
use rezvan::editorcontents::EditorContents;
use rezvan::editorrows::{EditorError, EditorRows};
use rezvan::output::Output;
use rezvan::row::Row;
use rezvan::searchindex::{SearchDirection, SearchIndex, SearchKey};
use rezvan::status::StatusMessage;

fn chars(s: &str) -> Vec<char> {
    s.chars().collect()
}

fn doc(lines: &[&str]) -> EditorRows {
    let mut rows = EditorRows::new();
    for l in lines {
        let n = rows.number_of_rows();
        rows.insert_row(n, chars(l));
    }
    rows
}

fn session(lines: &[&str], cols: usize, rows: usize) -> Output {
    Output::new((cols, rows), doc(lines), String::from("hello"), 0)
}

#[test]
fn tab_renders_to_next_stop() {
    let row = Row::new(chars("a\tb"));
    assert_eq!(row.render, chars("a   b"));
    assert_eq!(row.render.len(), 5);
}

#[test]
fn content_col_after_tab_maps_to_four() {
    let row = Row::new(chars("a\tb"));
    assert_eq!(row.content_col_to_render_col(2), 4);
    assert_eq!(row.content_col_to_render_col(3), 5);
    assert_eq!(row.content_col_to_render_col(0), 0);
}

#[test]
fn tabs_fill_one_to_four_spaces() {
    assert_eq!(Row::new(chars("abc\t")).render, chars("abc "));
    assert_eq!(Row::new(chars("abcd\tx")).render, chars("abcd    x"));
    assert_eq!(Row::new(chars("\t\t")).render, chars("        "));
    assert_eq!(Row::new(chars("ab\tc")).render, chars("ab  c"));
    for s in ["", "x", "\t", "a\tb\tc", "abc\t\td"] {
        let row = Row::new(chars(s));
        assert!(row.render.len() >= row.row_content.len());
    }
}

#[test]
fn empty_content_renders_empty() {
    let row = Row::new(Vec::new());
    assert!(row.render.is_empty());
}

#[test]
fn render_col_is_monotonic_and_round_trips() {
    let row = Row::new(chars("a\tbc\t\td"));
    let mut last = 0;
    for c in 0..=row.row_content.len() {
        let rx = row.content_col_to_render_col(c);
        assert!(rx >= last);
        last = rx;
        assert_eq!(row.get_row_content_x(rx), c);
    }
}

#[test]
fn render_col_inside_tab_maps_to_the_tab() {
    let row = Row::new(chars("a\tb"));
    assert_eq!(row.get_row_content_x(1), 1);
    assert_eq!(row.get_row_content_x(2), 1);
    assert_eq!(row.get_row_content_x(3), 1);
    assert_eq!(row.get_row_content_x(4), 2);
}

#[test]
fn render_col_past_end_maps_to_end_of_row() {
    let row = Row::new(chars("a\tb"));
    assert_eq!(row.get_row_content_x(5), 3);
    assert_eq!(row.get_row_content_x(100), 3);
    assert_eq!(Row::new(Vec::new()).get_row_content_x(0), 0);
}

#[test]
fn row_insert_and_delete_rerender() {
    let mut row = Row::new(chars("ab"));
    row.insert_char(1, '\t');
    assert_eq!(row.row_content, chars("a\tb"));
    assert_eq!(row.render, chars("a   b"));
    row.delete_char(1);
    assert_eq!(row.render, chars("ab"));
}

#[test]
fn insert_then_delete_leaves_empty_row() {
    let mut rows = EditorRows::new();
    let n = rows.number_of_rows();
    rows.insert_row(n, Vec::new());
    rows.insert_char(0, 0, 'x');
    assert_eq!(rows.get_row(0).unwrap(), &chars("x"));
    rows.delete_char(0, 0);
    assert_eq!(rows.number_of_rows(), 1);
    assert!(rows.get_row(0).unwrap().is_empty());
    assert_eq!(rows.get_render(0).unwrap().len(), 0);
}

#[test]
fn insert_row_shifts_later_rows() {
    let mut rows = doc(&["one", "three"]);
    rows.insert_row(1, chars("two"));
    assert_eq!(rows.number_of_rows(), 3);
    assert_eq!(rows.get_row(1).unwrap(), &chars("two"));
    assert_eq!(rows.get_row(2).unwrap(), &chars("three"));
}

#[test]
fn out_of_range_rows_are_rejected() {
    let rows = doc(&["a"]);
    assert_eq!(rows.get_row(1), Err(EditorError::OutOfRange));
    assert_eq!(rows.get_render(1), Err(EditorError::OutOfRange));
    assert_eq!(EditorRows::new().get_row(0), Err(EditorError::OutOfRange));
}

#[test]
fn join_merges_contents_in_order() {
    let mut rows = doc(&["ab", "c\td", "e"]);
    rows.join_adjacent_rows(1);
    assert_eq!(rows.number_of_rows(), 2);
    assert_eq!(rows.get_row(0).unwrap(), &chars("abc\td"));
    assert_eq!(rows.get_render(0).unwrap(), &chars("abc d"));
    assert_eq!(rows.get_row(1).unwrap(), &chars("e"));
}

#[test]
fn load_splits_on_line_endings() {
    let rows = EditorRows::from_text(&chars("a\r\nb\n\nc"), Some(String::from("f.txt")));
    assert_eq!(rows.number_of_rows(), 4);
    assert_eq!(rows.get_row(0).unwrap(), &chars("a"));
    assert_eq!(rows.get_row(1).unwrap(), &chars("b"));
    assert!(rows.get_row(2).unwrap().is_empty());
    assert_eq!(rows.get_row(3).unwrap(), &chars("c"));
    assert_eq!(rows.filename, Some(String::from("f.txt")));
}

#[test]
fn load_drops_final_line_ending() {
    assert_eq!(EditorRows::from_text(&chars("x\n"), None).number_of_rows(), 1);
    assert_eq!(EditorRows::from_text(&chars(""), None).number_of_rows(), 0);
    let rows = EditorRows::from_text(&chars("\tq"), None);
    assert_eq!(rows.get_render(0).unwrap(), &chars("    q"));
}

#[test]
fn serialize_joins_rows() {
    let rows = EditorRows::from_text(&chars("one\ntwo\r\nthree\n"), Some(String::from("out")));
    assert_eq!(rows.serialize(), Ok(chars("one\ntwo\nthree")));
    let empty = EditorRows::from_text(&chars(""), Some(String::from("out")));
    assert_eq!(empty.serialize(), Ok(Vec::new()));
}

#[test]
fn serialize_without_file_name_fails() {
    let rows = doc(&["a"]);
    assert_eq!(rows.serialize(), Err(EditorError::NoDestination));
}

#[test]
fn display_line_clips_to_window() {
    let rows = doc(&["a\tbcdef"]);
    assert_eq!(rows.display_line(0, 0, 3), Some(chars("a  ")));
    assert_eq!(rows.display_line(0, 4, 10), Some(chars("bcdef")));
    assert_eq!(rows.display_line(0, 20, 10), Some(Vec::new()));
    assert_eq!(rows.display_line(1, 0, 10), None);
}

#[test]
fn cursor_moves_wrap_between_rows() {
    let rows = doc(&["ab", "c"]);
    let mut cc = CursorController::new((10, 5));
    cc.move_cursor_arrows(CursorKey::Left, &rows);
    assert_eq!((cc.cursor_x, cc.cursor_y), (0, 0));
    cc.move_cursor_arrows(CursorKey::End, &rows);
    assert_eq!((cc.cursor_x, cc.cursor_y), (2, 0));
    cc.move_cursor_arrows(CursorKey::Right, &rows);
    assert_eq!((cc.cursor_x, cc.cursor_y), (0, 1));
    cc.move_cursor_arrows(CursorKey::Left, &rows);
    assert_eq!((cc.cursor_x, cc.cursor_y), (2, 0));
    cc.move_cursor_arrows(CursorKey::Home, &rows);
    assert_eq!((cc.cursor_x, cc.cursor_y), (0, 0));
    cc.move_cursor_arrows(CursorKey::Up, &rows);
    assert_eq!((cc.cursor_x, cc.cursor_y), (0, 0));
}

#[test]
fn cursor_down_reaches_append_row_and_clamps() {
    let rows = doc(&["abcd", "x"]);
    let mut cc = CursorController::new((10, 5));
    cc.move_cursor('e', &rows);
    assert_eq!(cc.cursor_x, 4);
    cc.move_cursor('j', &rows);
    assert_eq!((cc.cursor_x, cc.cursor_y), (1, 1));
    cc.move_cursor('j', &rows);
    assert_eq!((cc.cursor_x, cc.cursor_y), (0, 2));
    cc.move_cursor('j', &rows);
    assert_eq!(cc.cursor_y, 2);
    cc.move_cursor('e', &rows);
    assert_eq!(cc.cursor_x, 0);
    cc.move_cursor('k', &rows);
    cc.move_cursor('l', &rows);
    assert_eq!((cc.cursor_x, cc.cursor_y), (1, 1));
    cc.move_cursor('h', &rows);
    assert_eq!((cc.cursor_x, cc.cursor_y), (0, 1));
}

#[test]
fn scroll_keeps_cursor_in_window() {
    let lines: Vec<String> = (0..30).map(|i| format!("line\t{}", i)).collect();
    let refs: Vec<&str> = lines.iter().map(|s| s.as_str()).collect();
    let rows = doc(&refs);
    let mut cc = CursorController::new((4, 5));
    let keys = [CursorKey::Down, CursorKey::Down, CursorKey::End, CursorKey::Down];
    for step in 0..40 {
        let key = keys[step % keys.len()];
        cc.move_cursor_arrows(key, &rows);
        cc.scroll(&rows);
        assert!(cc.row_offset <= cc.cursor_y && cc.cursor_y < cc.row_offset + cc.screen_rows);
        assert!(
            cc.column_offset <= cc.render_x && cc.render_x < cc.column_offset + cc.screen_columns
        );
    }
    for _ in 0..40 {
        cc.move_cursor_arrows(CursorKey::Up, &rows);
        cc.scroll(&rows);
        assert!(cc.row_offset <= cc.cursor_y && cc.cursor_y < cc.row_offset + cc.screen_rows);
    }
}

#[test]
fn scroll_moves_window_minimally() {
    let rows = doc(&["a\tbcdefgh", "x", "y", "z"]);
    let mut cc = CursorController::new((4, 2));
    cc.cursor_y = 3;
    cc.scroll(&rows);
    assert_eq!(cc.row_offset, 2);
    cc.cursor_y = 0;
    cc.cursor_x = 3;
    cc.scroll(&rows);
    assert_eq!(cc.row_offset, 0);
    assert_eq!(cc.render_x, 5);
    assert_eq!(cc.column_offset, 2);
    assert_eq!(cc.screen_position(), (3, 0));
}

#[test]
fn search_forward_scenario() {
    let rows = doc(&["hello world", "world hello"]);
    let q = chars("hello");
    let mut s = SearchIndex::new();
    assert_eq!(s.search_step(&rows, &q, SearchKey::Other), Some((0, 0)));
    assert_eq!(s.search_step(&rows, &q, SearchKey::Down), Some((1, 6)));
    assert_eq!((s.y_index, s.x_index), (1, 6));
    assert_eq!(s.y_direction, Some(SearchDirection::Forward));
}

#[test]
fn search_backward_returns_to_previous_match() {
    let rows = doc(&["ab ab", "xx", "ab"]);
    let q = chars("ab");
    let mut s = SearchIndex::new();
    assert_eq!(s.search_step(&rows, &q, SearchKey::Other), Some((0, 0)));
    assert_eq!(s.search_step(&rows, &q, SearchKey::Down), Some((2, 0)));
    assert_eq!(s.search_step(&rows, &q, SearchKey::Up), Some((0, 3)));
    assert_eq!(s.search_step(&rows, &q, SearchKey::Up), Some((0, 0)));
    assert_eq!(s.search_step(&rows, &q, SearchKey::Down), Some((2, 0)));
    assert_eq!(s.search_step(&rows, &q, SearchKey::Up), Some((0, 3)));
}

#[test]
fn search_forward_skips_rest_of_row() {
    let rows = doc(&["ab ab"]);
    let q = chars("ab");
    let mut s = SearchIndex::new();
    assert_eq!(s.search_step(&rows, &q, SearchKey::Other), Some((0, 0)));
    assert_eq!(s.search_step(&rows, &q, SearchKey::Down), None);
    assert_eq!((s.y_index, s.x_index), (0, 0));
}

#[test]
fn search_forward_then_back_returns() {
    let rows = doc(&["x ab", "yy", "ab ab"]);
    let q = chars("ab");
    let mut s = SearchIndex::new();
    assert_eq!(s.search_step(&rows, &q, SearchKey::Other), Some((0, 2)));
    assert_eq!(s.search_step(&rows, &q, SearchKey::Down), Some((2, 0)));
    assert_eq!(s.search_step(&rows, &q, SearchKey::Up), Some((0, 2)));
}

#[test]
fn search_does_not_wrap() {
    let rows = doc(&["ab", "ab"]);
    let q = chars("ab");
    let mut s = SearchIndex::new();
    assert_eq!(s.search_step(&rows, &q, SearchKey::Other), Some((0, 0)));
    assert_eq!(s.search_step(&rows, &q, SearchKey::Up), None);
    assert_eq!((s.y_index, s.x_index), (0, 0));
    assert_eq!(s.search_step(&rows, &q, SearchKey::Down), Some((1, 0)));
    assert_eq!(s.search_step(&rows, &q, SearchKey::Down), None);
    assert_eq!((s.y_index, s.x_index), (1, 0));
}

#[test]
fn search_miss_keeps_state_and_escape_resets() {
    let rows = doc(&["abc"]);
    let mut s = SearchIndex::new();
    assert_eq!(s.search_step(&rows, &chars("zz"), SearchKey::Other), None);
    assert_eq!((s.y_index, s.x_index), (0, 0));
    assert_eq!(s.search_step(&rows, &chars("c"), SearchKey::Other), Some((0, 2)));
    assert_eq!(s.search_step(&rows, &chars("c"), SearchKey::Escape), None);
    assert_eq!((s.y_index, s.x_index, s.y_direction), (0, 0, None));
    s.y_index = 4;
    s.reset();
    assert_eq!(s.y_index, 0);
}

#[test]
fn search_matches_rendered_text() {
    let rows = doc(&["a\tfoo"]);
    let mut s = SearchIndex::new();
    assert_eq!(s.search_step(&rows, &chars("foo"), SearchKey::Other), Some((0, 4)));
    assert_eq!(s.search_step(&rows, &chars("a  "), SearchKey::Other), Some((0, 0)));
}

#[test]
fn find_callback_moves_cursor_to_match() {
    let mut out = session(&["x", "ab\tfoo"], 20, 5);
    out.find_callback(&chars("foo"), SearchKey::Other);
    assert_eq!(out.cursor_controller.cursor_y, 1);
    assert_eq!(out.cursor_controller.cursor_x, 3);
    assert_eq!(out.cursor_controller.row_offset, 2);
    out.cursor_controller.scroll(&out.editor_rows);
    assert_eq!(out.cursor_controller.row_offset, 1);
    out.find_callback(&chars("foo"), SearchKey::Enter);
    assert_eq!(out.search_index.y_index, 0);
    assert_eq!(out.cursor_controller.cursor_y, 1);
}

#[test]
fn typing_on_empty_document_creates_row() {
    let mut out = session(&[], 20, 5);
    out.insert_char('h');
    out.insert_char('i');
    assert_eq!(out.editor_rows.number_of_rows(), 1);
    assert_eq!(out.editor_rows.get_row(0).unwrap(), &chars("hi"));
    assert_eq!(out.cursor_controller.cursor_x, 2);
    assert!(out.dirty > 0);
}

#[test]
fn newline_splits_row_at_cursor() {
    let mut out = session(&["hello"], 20, 5);
    out.cursor_controller.cursor_x = 2;
    out.inser_newline();
    assert_eq!(out.editor_rows.number_of_rows(), 2);
    assert_eq!(out.editor_rows.get_row(0).unwrap(), &chars("he"));
    assert_eq!(out.editor_rows.get_row(1).unwrap(), &chars("llo"));
    out.cursor_controller.cursor_x = 0;
    out.inser_newline();
    assert_eq!(out.editor_rows.number_of_rows(), 3);
    assert!(out.editor_rows.get_row(0).unwrap().is_empty());
}

#[test]
fn backspace_deletes_and_joins() {
    let mut out = session(&["ab", "cd"], 20, 5);
    out.delete_char();
    assert_eq!(out.editor_rows.number_of_rows(), 2);
    out.cursor_controller.cursor_y = 1;
    out.cursor_controller.cursor_x = 1;
    out.delete_char();
    assert_eq!(out.editor_rows.get_row(1).unwrap(), &chars("d"));
    assert_eq!(out.cursor_controller.cursor_x, 0);
    out.delete_char();
    assert_eq!(out.editor_rows.number_of_rows(), 1);
    assert_eq!(out.editor_rows.get_row(0).unwrap(), &chars("abd"));
    assert_eq!((out.cursor_controller.cursor_x, out.cursor_controller.cursor_y), (2, 0));
}

#[test]
fn edits_count_as_dirty() {
    let mut out = session(&["ab"], 20, 5);
    out.delete_char();
    assert_eq!(out.dirty, 0);
    out.cursor_controller.cursor_x = 1;
    out.inser_newline();
    assert_eq!(out.dirty, 0);
    out.insert_char('z');
    assert_eq!(out.dirty, 1);
    out.delete_char();
    assert_eq!(out.dirty, 2);
    out.cursor_controller.cursor_y = 2;
    out.cursor_controller.cursor_x = 0;
    out.insert_char('q');
    assert_eq!(out.dirty, 4);
    assert_eq!(out.editor_rows.number_of_rows(), 3);
}

#[test]
fn scroll_with_empty_window() {
    let rows = doc(&["abc", "d", "e"]);
    let mut cc = CursorController::new((0, 0));
    cc.cursor_y = 2;
    cc.scroll(&rows);
    assert_eq!(cc.row_offset, 2);
    assert_eq!(cc.column_offset, 0);
    cc.cursor_y = 0;
    cc.cursor_x = 3;
    cc.scroll(&rows);
    assert_eq!((cc.row_offset, cc.render_x, cc.column_offset), (0, 3, 3));
}

#[test]
fn session_moves_cursor() {
    let mut out = session(&["ab", "c"], 20, 5);
    out.move_cursor('l');
    out.move_cursor_arrows(CursorKey::Down);
    assert_eq!((out.cursor_controller.cursor_x, out.cursor_controller.cursor_y), (1, 1));
}

#[test]
fn status_message_expires() {
    let mut m = StatusMessage::new(String::from("hi"), 1000);
    assert_eq!(m.message(3000), Some(&String::from("hi")));
    assert_eq!(m.message(6000), Some(&String::from("hi")));
    assert_eq!(m.message(6001), None);
    assert_eq!(m.message, None);
    m.set_message(String::from("again"), 7000);
    assert_eq!(m.message(7000), Some(&String::from("again")));
}

#[test]
fn contents_buffer_collects_text() {
    let mut c = EditorContents::new();
    c.push('a');
    c.push_str("bc");
    c.push('\n');
    assert_eq!(c.as_str(), "abc\n");
}
