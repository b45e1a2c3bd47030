use file_viewer::commands::{Context, EditorCommand, Outcome};
use file_viewer::document::{Document, DisplayLine, OverlayItem};
use file_viewer::viewer::App;

fn app(text: &str) -> App {
    App::new(text.to_string())
}

fn pos(a: &App) -> (usize, usize) {
    (a.cursor_y, a.cursor_x)
}

#[test]
fn document_splits_lines_like_str_lines() {
    let d = Document::new("foo\r\nbar\n\nbaz\r");
    assert_eq!(d.lines, vec!["foo", "bar", "", "baz\r"]);
    assert!(Document::new("").lines.is_empty());
    assert_eq!(Document::new("a\n").lines, vec!["a"]);
}

#[test]
fn compose_interleaves_overlays_in_anchor_order() {
    let d = Document::new("a\nb\nc");
    let overlays = vec![
        OverlayItem { after_line: 0, content: vec!["x".to_string()] },
        OverlayItem { after_line: 0, content: vec!["y".to_string(), "z".to_string()] },
        OverlayItem { after_line: 2, content: vec!["w".to_string()] },
        OverlayItem { after_line: 9, content: vec!["t".to_string()] },
    ];
    let rows = d.compose(&overlays);
    let texts: Vec<&str> = rows.iter().map(|r| r.text()).collect();
    assert_eq!(texts, vec!["a", "x", "y", "z", "b", "c", "w", "t"]);
    assert!(matches!(rows[0], DisplayLine::Original(_)));
    assert!(matches!(rows[1], DisplayLine::Overlay(_)));
}

#[test]
fn word_forward_walks_the_runs_of_a_line() {
    let mut a = app("foo bar_baz 42!!");
    assert_eq!(pos(&a), (0, 0));
    a.move_word_forward();
    assert_eq!(pos(&a), (0, 4));
    a.move_word_forward();
    assert_eq!(pos(&a), (0, 12));
    a.move_word_forward();
    assert_eq!(pos(&a), (0, 14));
    a.move_word_forward();
    assert_eq!(pos(&a), (0, 16));
}

#[test]
fn word_motion_crosses_rows() {
    let mut a = app("foo\n  bar");
    a.move_word_forward();
    assert_eq!(pos(&a), (1, 2));
    a.move_word_backward();
    assert_eq!(pos(&a), (0, 0));
}

#[test]
fn word_backward_stops_at_run_starts() {
    let mut a = app("ab, cd");
    a.cursor_x = 6;
    a.move_word_backward();
    assert_eq!(pos(&a), (0, 4));
    a.move_word_backward();
    assert_eq!(pos(&a), (0, 2));
    a.move_word_backward();
    assert_eq!(pos(&a), (0, 0));
    a.move_word_backward();
    assert_eq!(pos(&a), (0, 0));
}

#[test]
fn search_lists_hits_in_row_major_order_and_wraps() {
    let mut a = app("ab ab\nab");
    a.set_search_query("ab".to_string());
    assert_eq!(a.search_hits, vec![(0, 0), (0, 3), (1, 0)]);
    assert_eq!(a.current_hit, Some(0));
    a.next_hit(10);
    a.next_hit(10);
    assert_eq!(a.current_hit, Some(2));
    assert_eq!(pos(&a), (1, 0));
    a.next_hit(10);
    assert_eq!(a.current_hit, Some(0));
    assert_eq!(pos(&a), (0, 0));
    a.prev_hit(10);
    assert_eq!(a.current_hit, Some(2));
}

#[test]
fn search_does_not_count_overlaps_and_clears_on_empty() {
    let mut a = app("aaaa\nb");
    a.set_search_query("aa".to_string());
    assert_eq!(a.search_hits, vec![(0, 0), (0, 2)]);
    a.set_search_query(String::new());
    assert!(a.search_query.is_none());
    assert!(a.search_hits.is_empty());
    assert_eq!(a.current_hit, None);
}

#[test]
fn search_without_hits_keeps_cursor() {
    let mut a = app("abc\ndef");
    a.cursor_y = 1;
    a.set_search_query("zz".to_string());
    assert!(a.search_hits.is_empty());
    assert_eq!(a.current_hit, None);
    assert_eq!(pos(&a), (1, 0));
    a.next_hit(5);
    assert_eq!(pos(&a), (1, 0));
}

#[test]
fn half_page_down_stops_at_last_row() {
    let mut a = app("1\n2\n3\n4");
    a.half_page_down(10);
    assert_eq!(a.cursor_y, 3);
    assert_eq!(a.scroll, 0);
}

#[test]
fn half_pages_scroll_the_window() {
    let text: String = (1..=20).map(|i| format!("line {i}\n")).collect();
    let mut a = App::new(text);
    for _ in 0..3 {
        a.half_page_down(4);
    }
    assert_eq!(a.cursor_y, 6);
    assert_eq!(a.scroll, 3);
    for _ in 0..3 {
        a.half_page_up(4);
    }
    assert_eq!(a.cursor_y, 0);
    assert_eq!(a.scroll, 0);
}

#[test]
fn paragraph_down_without_blank_row_goes_to_last_row() {
    let mut a = app("one\ntwo\nthree");
    a.cursor_x = 2;
    a.move_paragraph_down();
    assert_eq!(pos(&a), (2, 0));
}

#[test]
fn paragraph_motion_stops_on_whitespace_rows() {
    let mut a = app("a\n \t\nb\nc\n\u{a0}\nd");
    a.move_paragraph_down();
    assert_eq!(a.cursor_y, 1);
    a.move_paragraph_down();
    assert_eq!(a.cursor_y, 4);
    a.move_paragraph_up();
    assert_eq!(a.cursor_y, 1);
    a.move_paragraph_up();
    assert_eq!(a.cursor_y, 0);
}

#[test]
fn vertical_motion_clamps_column_and_follows_with_scroll() {
    let mut a = app("long line\nab\nlonger line\nx");
    a.cursor_x = 7;
    a.move_down(2);
    assert_eq!(pos(&a), (1, 2));
    a.move_down(2);
    assert_eq!(pos(&a), (2, 2));
    assert_eq!(a.scroll, 1);
    a.move_up();
    a.move_up();
    assert_eq!(pos(&a), (0, 2));
    assert_eq!(a.scroll, 0);
    a.move_up();
    assert_eq!(pos(&a), (0, 2));
}

#[test]
fn horizontal_motion_clamps_to_row() {
    let mut a = app("ab");
    a.move_left();
    assert_eq!(pos(&a), (0, 0));
    a.move_right();
    a.move_right();
    a.move_right();
    assert_eq!(pos(&a), (0, 2));
    assert_eq!(a.line_len(0), 2);
    assert_eq!(a.line_len(5), 0);
}

#[test]
fn screen_relative_jumps() {
    let text: String = (0..30).map(|i| format!("row {i}\n")).collect();
    let mut a = App::new(text);
    a.scroll = 10;
    a.cursor_y = 12;
    a.cursor_top();
    assert_eq!(a.cursor_y, 10);
    a.cursor_middle(6);
    assert_eq!(a.cursor_y, 13);
    a.cursor_bottom(6);
    assert_eq!(a.cursor_y, 15);
    a.scroll = 27;
    a.cursor_bottom(6);
    assert_eq!(a.cursor_y, 29);
    a.goto_first_line();
    assert_eq!(pos(&a), (0, 0));
    a.goto_last_line();
    assert_eq!(pos(&a), (29, 0));
}

#[test]
fn ensure_visible_moves_window_minimally() {
    let text: String = (0..30).map(|i| format!("{i}\n")).collect();
    let mut a = App::new(text);
    a.cursor_y = 20;
    a.ensure_visible(5);
    assert_eq!(a.scroll, 16);
    a.cursor_y = 3;
    a.ensure_visible(5);
    assert_eq!(a.scroll, 3);
    a.ensure_visible(5);
    assert_eq!(a.scroll, 3);
}

#[test]
fn byte_lookups() {
    let a = app("ab\n\ncd");
    assert_eq!(a.char_at(0, 1), Some(b'b'));
    assert_eq!(a.char_at(0, 2), None);
    assert_eq!(a.char_before(2, 0), None);
    assert_eq!(a.char_before(1, 0), Some(b'b'));
    assert_eq!(a.char_before(2, 1), Some(b'c'));
    assert_eq!(a.row_count(), 3);
}

#[test]
fn empty_document_is_safe() {
    let mut a = app("");
    let mut ctx = Context { height: 5, pending_g: false };
    for cmd in [
        EditorCommand::MoveDown,
        EditorCommand::MoveRight,
        EditorCommand::MoveWordForward,
        EditorCommand::MoveWordBackward,
        EditorCommand::MoveParagraphDown,
        EditorCommand::MoveParagraphUp,
        EditorCommand::HalfPageDown,
        EditorCommand::CursorMiddle,
        EditorCommand::CursorBottom,
        EditorCommand::GotoLastLine,
    ] {
        assert!(matches!(cmd.run(&mut a, &mut ctx), Outcome::Continue));
        assert_eq!(pos(&a), (0, 0));
        assert_eq!(a.scroll, 0);
    }
}

#[test]
fn motions_keep_cursor_in_view_and_in_bounds() {
    let text = "fn main() {\n    let x = 1;\n\n    x + 2\n}\n\n// end of file with words\nlast";
    let mut a = app(text);
    let mut ctx = Context { height: 3, pending_g: false };
    let script = [
        EditorCommand::MoveDown,
        EditorCommand::MoveWordForward,
        EditorCommand::MoveParagraphDown,
        EditorCommand::HalfPageDown,
        EditorCommand::MoveRight,
        EditorCommand::MoveWordForward,
        EditorCommand::CursorBottom,
        EditorCommand::GotoLastLine,
        EditorCommand::MoveWordBackward,
        EditorCommand::MoveParagraphUp,
        EditorCommand::HalfPageUp,
        EditorCommand::CursorTop,
        EditorCommand::MoveUp,
        EditorCommand::CursorMiddle,
        EditorCommand::MoveLeft,
        EditorCommand::GotoFirstOrPending,
        EditorCommand::GotoFirstOrPending,
    ];
    for cmd in script {
        cmd.run(&mut a, &mut ctx);
        let rows = a.row_count();
        assert!(a.cursor_y < rows);
        assert!(a.cursor_x <= a.line_len(a.cursor_y));
        assert!(a.scroll <= a.cursor_y && a.cursor_y < a.scroll + 3);
    }
    assert_eq!(pos(&a), (0, 0));
}

#[test]
fn inserted_overlays_keep_anchor_order_and_refresh_hits() {
    let mut a = app("a\nbb\nc");
    a.set_search_query("b".to_string());
    assert_eq!(a.search_hits, vec![(1, 0), (1, 1)]);
    a.cursor_y = 2;
    a.insert_overlay(OverlayItem { after_line: 0, content: vec!["xbx".to_string()] }, 10);
    a.insert_overlay(OverlayItem { after_line: 0, content: vec!["y".to_string()] }, 10);
    a.insert_overlay(OverlayItem { after_line: 7, content: vec!["end".to_string()] }, 10);
    let texts: Vec<String> = a.display_lines().iter().map(|l| l.text().to_string()).collect();
    assert_eq!(texts, vec!["a", "xbx", "y", "bb", "c", "end"]);
    assert_eq!(pos(&a), (2, 0));
    assert_eq!(a.search_hits, vec![(1, 1), (3, 0), (3, 1)]);
    assert_eq!(a.current_hit, None);
    a.next_hit(10);
    assert_eq!(pos(&a), (1, 1));
}

#[test]
fn inserted_rows_above_the_cursor_reclamp_its_column() {
    let mut a = app("a
bbb");
    a.cursor_y = 1;
    a.cursor_x = 3;
    a.insert_overlay(OverlayItem { after_line: 0, content: vec!["x".to_string()] }, 1);
    assert_eq!(pos(&a), (1, 1));
    assert_eq!(a.scroll, 1);
}

#[test]
fn word_forward_treats_a_row_break_as_whitespace() {
    let mut a = app("foo\nbar");
    a.move_word_forward();
    assert_eq!(pos(&a), (1, 0));
    a.move_word_forward();
    assert_eq!(pos(&a), (1, 3));
}

#[test]
fn word_forward_skips_blank_rows_to_the_next_run() {
    let mut a = app("foo\n\nbar");
    a.move_word_forward();
    assert_eq!(pos(&a), (2, 0));
    let mut p = app("x!!\n  y");
    p.cursor_x = 1;
    p.move_word_forward();
    assert_eq!(pos(&p), (1, 2));
}

#[test]
fn compose_tags_base_and_overlay_rows() {
    let d = Document { lines: vec!["a".to_string(), "b".to_string()] };
    let overlays = vec![
        OverlayItem { after_line: 0, content: vec!["x".to_string()] },
        OverlayItem { after_line: 0, content: vec!["y".to_string()] },
        OverlayItem { after_line: 5, content: vec!["z".to_string()] },
    ];
    let rows = d.compose(&overlays);
    let tagged: Vec<(bool, &str)> =
        rows.iter().map(|r| (matches!(r, DisplayLine::Original(_)), r.text())).collect();
    assert_eq!(tagged, vec![(true, "a"), (false, "x"), (false, "y"), (true, "b"), (false, "z")]);
}
