//! Selection anchoring, the active range, and selected text.

use tbook::layout::PageContent;
use tbook::reader::LoadedBook;

fn book_from(text: &str) -> LoadedBook {
    LoadedBook::open_unit(
        1,
        "book.epub".to_string(),
        0,
        1,
        0,
        vec![PageContent::Text(text.to_string())],
        vec![],
    )
}

#[test]
fn active_range_ordered_moving_forward() {
    let mut book = book_from("alpha beta gamma\ndelta\nepsilon zeta");
    book.cursor_right(10);
    assert!(book.enter_selection());
    book.move_cursor_down(10);
    book.move_cursor_down(10);
    assert_eq!(book.get_selection_range(), Some((0, 1, 2, 0)));
}

#[test]
fn active_range_ordered_moving_backward() {
    let mut book = book_from("alpha beta gamma\ndelta\nepsilon zeta");
    book.move_cursor_down(10);
    book.move_cursor_down(10);
    assert!(book.enter_selection());
    book.move_cursor_up();
    book.move_cursor_up();
    book.cursor_right(10);
    // anchored at (2, 0), cursor at (0, 1): earlier point still first
    assert_eq!(book.get_selection_range(), Some((0, 1, 2, 0)));
}

#[test]
fn active_range_without_anchor_is_none() {
    let book = book_from("alpha beta");
    assert_eq!(book.get_selection_range(), None);
}

#[test]
fn selected_text_single_line_joins_words() {
    let mut book = book_from("alpha beta gamma delta");
    book.cursor_right(10);
    assert!(book.enter_selection());
    book.cursor_right(10);
    assert_eq!(book.get_selection_range(), Some((0, 1, 0, 2)));
    assert_eq!(book.get_selected_text(), "beta gamma");
}

#[test]
fn selected_text_single_word() {
    let mut book = book_from("alpha beta");
    assert!(book.enter_selection());
    assert_eq!(book.get_selected_text(), "alpha");
}

#[test]
fn selected_text_spans_lines() {
    let mut book = book_from("alpha beta\ngamma\ndelta epsilon");
    book.cursor_right(10);
    assert!(book.enter_selection());
    book.move_cursor_down(10);
    book.move_cursor_down(10);
    // start line from word 1, interior line whole, end line up to word 0
    assert_eq!(book.get_selected_text(), "beta gamma delta");
}

#[test]
fn selected_text_skips_empty_interior_lines() {
    let mut book = book_from("alpha\n\nbeta");
    assert!(book.enter_selection());
    book.move_cursor_down(10);
    book.move_cursor_down(10);
    assert_eq!(book.get_selected_text(), "alpha beta");
}

#[test]
fn selection_cannot_anchor_on_image_row() {
    let mut book = LoadedBook::open_unit(
        1,
        "book.epub".to_string(),
        0,
        1,
        0,
        vec![PageContent::Image(tbook::layout::ImageData {
            width: 10,
            height: 10,
            bytes: vec![],
        })],
        vec![],
    );
    assert!(!book.enter_selection());
    assert_eq!(book.selection_anchor, None);
}

#[test]
fn exit_selection_clears_anchor() {
    let mut book = book_from("alpha");
    assert!(book.enter_selection());
    assert!(book.selection_anchor.is_some());
    book.exit_selection();
    assert_eq!(book.selection_anchor, None);
    assert_eq!(book.get_selected_text(), "");
}
