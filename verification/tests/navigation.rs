//! Cursor and viewport navigation over a render buffer.

use tbook::layout::{PageContent, RenderLine};
use tbook::reader::LoadedBook;

fn book_from(text: &str) -> LoadedBook {
    LoadedBook::open_unit(
        1,
        "book.epub".to_string(),
        0,
        3,
        0,
        vec![PageContent::Text(text.to_string())],
        vec![],
    )
}

fn line_text(book: &LoadedBook, i: usize) -> String {
    match &book.chapter_content[i] {
        RenderLine::Text(s) => s.clone(),
        RenderLine::Image { .. } => panic!("expected a text line"),
    }
}

#[test]
fn buffer_lines_follow_newlines() {
    let book = book_from("a b c\n\nd");
    assert_eq!(book.chapter_content.len(), 3);
    assert_eq!(line_text(&book, 0), "a b c");
    assert_eq!(line_text(&book, 1), "");
    assert_eq!(line_text(&book, 2), "d");
}

#[test]
fn down_then_up_returns_to_line() {
    let mut book = book_from("a b c\n\nd");
    assert_eq!(book.current_line, 0);
    book.move_cursor_down(10);
    assert_eq!(book.current_line, 1);
    book.move_cursor_up();
    assert_eq!(book.current_line, 0);
}

#[test]
fn down_clamps_at_last_line() {
    let mut book = book_from("a\nb");
    book.move_cursor_down(10);
    book.move_cursor_down(10);
    book.move_cursor_down(10);
    assert_eq!(book.current_line, 1);
}

#[test]
fn up_clamps_at_first_line() {
    let mut book = book_from("a\nb");
    book.move_cursor_up();
    assert_eq!(book.current_line, 0);
    assert_eq!(book.viewport_top, 0);
}

#[test]
fn right_crosses_empty_line_without_skipping() {
    let mut book = book_from("a b c\n\nd");
    book.cursor_right(10);
    book.cursor_right(10);
    assert_eq!((book.current_line, book.word_index), (0, 2));
    book.cursor_right(10);
    // the empty line is addressable: the cursor lands on it, not on "d"
    assert_eq!((book.current_line, book.word_index), (1, 0));
    book.cursor_right(10);
    assert_eq!((book.current_line, book.word_index), (2, 0));
}

#[test]
fn right_clamps_at_end_of_buffer() {
    let mut book = book_from("a");
    book.cursor_right(10);
    assert_eq!((book.current_line, book.word_index), (0, 0));
}

#[test]
fn left_lands_on_last_word_of_previous_line() {
    let mut book = book_from("a b c\nd");
    book.move_cursor_down(10);
    assert_eq!((book.current_line, book.word_index), (1, 0));
    book.cursor_left();
    assert_eq!((book.current_line, book.word_index), (0, 2));
}

#[test]
fn left_lands_on_word_zero_of_empty_previous_line() {
    let mut book = book_from("\nd");
    book.move_cursor_down(10);
    book.cursor_left();
    assert_eq!((book.current_line, book.word_index), (0, 0));
}

#[test]
fn left_clamps_at_start_of_buffer() {
    let mut book = book_from("a b");
    book.cursor_left();
    assert_eq!((book.current_line, book.word_index), (0, 0));
}

#[test]
fn vertical_move_reclamps_word_index() {
    let mut book = book_from("a b c d\ne f");
    book.cursor_right(10);
    book.cursor_right(10);
    book.cursor_right(10);
    assert_eq!((book.current_line, book.word_index), (0, 3));
    book.move_cursor_down(10);
    // "e f" has two words; index 3 is clamped to the last valid index
    assert_eq!((book.current_line, book.word_index), (1, 1));
}

#[test]
fn scroll_down_accrues_words_read() {
    let mut book = book_from("a b c\nd e\nf");
    assert_eq!(book.words_read, 0);
    book.scroll_viewport_down();
    assert_eq!(book.viewport_top, 1);
    assert_eq!(book.words_read, 3);
    book.scroll_viewport_down();
    assert_eq!(book.viewport_top, 2);
    assert_eq!(book.words_read, 5);
}

#[test]
fn scroll_past_image_rows_accrues_no_words() {
    let mut book = LoadedBook::open_unit(
        1,
        "book.epub".to_string(),
        0,
        1,
        0,
        vec![
            PageContent::Image(tbook::layout::ImageData {
                width: 100,
                height: 100,
                bytes: vec![],
            }),
            PageContent::Text("tail words".to_string()),
        ],
        vec![],
    );
    book.scroll_viewport_down();
    assert_eq!(book.viewport_top, 1);
    assert_eq!(book.words_read, 0);
}

#[test]
fn scroll_down_pulls_cursor_to_top() {
    let mut book = book_from("a\nb\nc");
    book.scroll_viewport_down();
    assert_eq!(book.viewport_top, 1);
    assert_eq!(book.current_line, 1);
}

#[test]
fn scroll_down_stops_at_last_line() {
    let mut book = book_from("a\nb");
    book.scroll_viewport_down();
    book.scroll_viewport_down();
    assert_eq!(book.viewport_top, 1);
}

#[test]
fn scroll_up_stops_at_first_line() {
    let mut book = book_from("a\nb");
    book.scroll_viewport_up();
    assert_eq!(book.viewport_top, 0);
}

#[test]
fn cursor_auto_scrolls_with_margin() {
    let mut book = book_from("a\nb\nc\nd\ne\nf");
    // viewport height 4 reserves a 2-line margin: moving to line 2 scrolls
    book.move_cursor_down(4);
    assert_eq!(book.current_line, 1);
    assert_eq!(book.viewport_top, 0);
    book.move_cursor_down(4);
    assert_eq!(book.current_line, 2);
    assert_eq!(book.viewport_top, 1);
}

#[test]
fn image_rows_are_atomic_for_horizontal_moves() {
    let mut book = LoadedBook::open_unit(
        1,
        "book.epub".to_string(),
        0,
        1,
        0,
        vec![
            PageContent::Text("x".to_string()),
            PageContent::Image(tbook::layout::ImageData {
                width: 100,
                height: 100,
                bytes: vec![],
            }),
        ],
        vec![],
    );
    book.cursor_right(100);
    assert_eq!((book.current_line, book.word_index), (1, 0));
    assert!(matches!(
        book.chapter_content[1],
        RenderLine::Image { protocol_idx: 0, row_idx: 0 }
    ));
    // one step moves one image row, always at word zero
    book.cursor_right(100);
    assert_eq!((book.current_line, book.word_index), (2, 0));
    book.cursor_left();
    assert_eq!((book.current_line, book.word_index), (1, 0));
}

#[test]
fn position_cursor_clamps_into_buffer() {
    let mut book = book_from("a b\nc");
    book.position_cursor(10, 7);
    assert_eq!(book.current_line, 1);
    assert_eq!(book.viewport_top, 1);
    assert_eq!(book.word_index, 0);
    book.position_cursor(0, 7);
    assert_eq!((book.current_line, book.word_index), (0, 1));
    assert!(book.selection_anchor.is_none());
}

#[test]
fn open_unit_clamps_start_line() {
    let book = LoadedBook::open_unit(
        1,
        "book.epub".to_string(),
        0,
        1,
        99,
        vec![PageContent::Text("a\nb".to_string())],
        vec![],
    );
    assert_eq!(book.current_line, 1);
    assert_eq!(book.viewport_top, 1);
    assert_eq!(book.word_index, 0);
}
