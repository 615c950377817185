//! Flattening content items into a render buffer, image sizing, word
//! wrapping, and the reader height formula.

use tbook::app::{reader_content_height, AppView};
use tbook::layout::{
    flatten_content, image_rows_exec, wrap_words_to_lines, ImageData, PageContent, RenderLine,
};

#[test]
fn flatten_empty_yields_one_placeholder_line() {
    let (lines, images) = flatten_content(vec![]);
    assert_eq!(lines.len(), 1);
    match &lines[0] {
        RenderLine::Text(s) => assert_eq!(s, " [ Empty ] "),
        RenderLine::Image { .. } => panic!("expected the placeholder text line"),
    }
    assert_eq!(images.len(), 0);
}

#[test]
fn flatten_image_aspect_ratio_half() {
    // width 200, height 100: rows = clamp(round(80 * 0.5 * 0.5), 5, 30) = 20
    let (lines, images) = flatten_content(vec![PageContent::Image(ImageData {
        width: 200,
        height: 100,
        bytes: vec![],
    })]);
    assert_eq!(lines.len(), 20);
    for (row, line) in lines.iter().enumerate() {
        match line {
            RenderLine::Image { protocol_idx, row_idx } => {
                assert_eq!(*protocol_idx, 0);
                assert_eq!(*row_idx, row);
            }
            RenderLine::Text(_) => panic!("expected image rows only"),
        }
    }
    assert_eq!(images.len(), 1);
    assert_eq!((images[0].width, images[0].height), (200, 100));
}

#[test]
fn image_rows_clamp_low_and_high() {
    // very wide: raw rows below 5 clamp up
    assert_eq!(image_rows_exec(1000, 10), 5);
    // very tall: raw rows above 30 clamp down
    assert_eq!(image_rows_exec(10, 1000), 30);
    // rounding to nearest: 80 * 110 / (2 * 200) = 22
    assert_eq!(image_rows_exec(200, 110), 22);
    // degenerate zero width takes the upper clamp
    assert_eq!(image_rows_exec(0, 50), 30);
}

#[test]
fn flatten_splits_text_on_newlines_and_keeps_empty_segments() {
    let (lines, images) = flatten_content(vec![PageContent::Text("a\n\nb\r\nc".to_string())]);
    let texts: Vec<String> = lines
        .iter()
        .map(|l| match l {
            RenderLine::Text(s) => s.clone(),
            RenderLine::Image { .. } => panic!("expected text lines"),
        })
        .collect();
    assert_eq!(texts, vec!["a", "", "b", "c"]);
    assert_eq!(images.len(), 0);
}

#[test]
fn flatten_numbers_images_in_item_order() {
    let (lines, images) = flatten_content(vec![
        PageContent::Image(ImageData { width: 10, height: 1000, bytes: vec![1] }),
        PageContent::Text("x".to_string()),
        PageContent::Image(ImageData { width: 1000, height: 10, bytes: vec![2] }),
    ]);
    assert_eq!(images.len(), 2);
    assert_eq!(images[0].bytes, vec![1]);
    assert_eq!(images[1].bytes, vec![2]);
    // first image: 30 rows; then the text line; second image: 5 rows
    assert_eq!(lines.len(), 36);
    assert!(matches!(lines[0], RenderLine::Image { protocol_idx: 0, row_idx: 0 }));
    assert!(matches!(lines[30], RenderLine::Text(_)));
    assert!(matches!(lines[31], RenderLine::Image { protocol_idx: 1, row_idx: 0 }));
    assert!(matches!(lines[35], RenderLine::Image { protocol_idx: 1, row_idx: 4 }));
}

#[test]
fn wrap_greedy_packs_words() {
    let words: Vec<String> = vec!["aa".into(), "bb".into(), "cc".into()];
    // widths 2 each: "aa bb" is exactly 5 columns, "cc" starts a new line
    let ranges = wrap_words_to_lines(&words, 5);
    assert_eq!(ranges, vec![(0, 2), (2, 3)]);
}

#[test]
fn wrap_zero_width_or_no_words_gives_one_empty_line() {
    let words: Vec<String> = vec!["aa".into()];
    assert_eq!(wrap_words_to_lines(&words, 0), vec![(0, 0)]);
    let none: Vec<String> = vec![];
    assert_eq!(wrap_words_to_lines(&none, 10), vec![(0, 0)]);
}

#[test]
fn wrap_overwide_word_stands_alone() {
    let words: Vec<String> = vec!["toolongword".into(), "a".into()];
    let ranges = wrap_words_to_lines(&words, 4);
    assert_eq!(ranges, vec![(0, 1), (1, 2)]);
}

#[test]
fn wrap_counts_wide_characters_by_display_width() {
    // a CJK character occupies two columns, so it cannot share 2 columns
    let words: Vec<String> = vec!["\u{4F60}".into(), "b".into()];
    let ranges = wrap_words_to_lines(&words, 2);
    assert_eq!(ranges, vec![(0, 1), (1, 2)]);
    // at width 4 both fit: 2 + 1 + 1
    let ranges = wrap_words_to_lines(&words, 4);
    assert_eq!(ranges, vec![(0, 2)]);
}

#[test]
fn reader_height_subtracts_bars_and_margins() {
    assert_eq!(reader_content_height(40, 2, AppView::Reader, false, true), 34);
    assert_eq!(reader_content_height(40, 0, AppView::Search, false, true), 35);
    assert_eq!(reader_content_height(40, 0, AppView::Reader, true, false), 40);
    // saturates at zero
    assert_eq!(reader_content_height(3, 5, AppView::Reader, false, true), 0);
}
