//! The application state machine: configuration, the library listing,
//! themes, chapter flow, annotation requests, the explorer, and search.

use tbook::annotations::AnnotationKind;
use tbook::app::{path_is_book, path_is_pdf, search_chapter_lines, App, AppView, Theme};
use tbook::config::AppConfig;
use tbook::db::{AnnotationRecord, BookRecord};
use tbook::layout::{PageContent, RenderLine};

fn record(id: i32, path: &str) -> BookRecord {
    BookRecord {
        id,
        title: format!("book {}", id),
        author: "a".to_string(),
        path: path.to_string(),
        current_chapter: 0,
        current_line: 0,
        total_chapters: 1,
        total_lines: 0,
        lines_read: 0,
    }
}

fn anno(chapter: usize, sl: usize, kind: &str) -> AnnotationRecord {
    AnnotationRecord {
        id: 1,
        chapter,
        start_line: sl,
        start_word: 0,
        end_line: sl,
        end_word: 0,
        content: "c".to_string(),
        note: None,
        kind: kind.to_string(),
    }
}

fn app_with_book(text: &str) -> App {
    let mut app = App::new();
    app.load_book(
        7,
        "b.epub".to_string(),
        0,
        3,
        0,
        vec![PageContent::Text(text.to_string())],
        vec![],
    );
    app
}

#[test]
fn new_app_starts_in_library() {
    let app = App::new();
    assert_eq!(app.view, AppView::Library);
    assert!(app.current_book.is_none());
    assert_eq!(app.margin, 2);
    assert_eq!(app.line_spacing, 0);
    assert_eq!(app.daily_goal_words, 1500);
}

#[test]
fn config_applies_layout_and_theme() {
    let mut app = App::new();
    let config = AppConfig {
        library_path: "/books".to_string(),
        theme: "GRUVBOX".to_string(),
        margin: 4,
        line_spacing: 1,
        auto_resume: false,
        daily_goal_words: 900,
        pomodoro_work_minutes: 25,
        pomodoro_break_minutes: 5,
    };
    app.apply_config(&config);
    assert_eq!(app.margin, 4);
    assert_eq!(app.line_spacing, 1);
    assert_eq!(app.daily_goal_words, 900);
    assert_eq!(app.theme, Theme::Gruvbox);
    assert_eq!(app.explorer_path, "/books");
}

#[test]
fn config_defaults() {
    let config = AppConfig::default();
    assert_eq!(config.theme, "Default");
    assert_eq!(config.margin, 2);
    assert_eq!(config.daily_goal_words, 1500);
    assert!(config.auto_resume);
}

#[test]
fn theme_names_fold_case_and_default() {
    assert_eq!(Theme::from_str("gruvbox"), Theme::Gruvbox);
    assert_eq!(Theme::from_str("NORD"), Theme::Nord);
    assert_eq!(Theme::from_str("Sepia"), Theme::Sepia);
    assert_eq!(Theme::from_str("anything"), Theme::Default);
}

#[test]
fn themes_cycle() {
    let mut app = App::new();
    assert_eq!(app.theme, Theme::Default);
    app.toggle_theme();
    assert_eq!(app.theme, Theme::Gruvbox);
    app.toggle_theme();
    app.toggle_theme();
    app.toggle_theme();
    assert_eq!(app.theme, Theme::Default);
}

#[test]
fn refresh_library_clamps_selection() {
    let mut app = App::new();
    app.refresh_library(vec![record(1, "a.epub"), record(2, "b.epub")]);
    app.selected_book_index = 1;
    app.refresh_library(vec![record(1, "a.epub"), record(2, "b.epub")]);
    assert_eq!(app.selected_book_index, 1);
    app.refresh_library(vec![record(1, "a.epub")]);
    assert_eq!(app.selected_book_index, 0);
    app.refresh_library(vec![]);
    assert_eq!(app.selected_book_index, 0);
}

#[test]
fn margins_clamp() {
    let mut app = App::new();
    app.adjust_margin(30);
    assert_eq!(app.margin, 20);
    app.adjust_margin(-25);
    assert_eq!(app.margin, 0);
    app.adjust_spacing(9);
    assert_eq!(app.line_spacing, 5);
    app.adjust_spacing(-9);
    assert_eq!(app.line_spacing, 0);
}

#[test]
fn load_book_enters_reader() {
    let app = app_with_book("hello there\nworld");
    assert_eq!(app.view, AppView::Reader);
    let book = app.current_book.as_ref().unwrap();
    assert_eq!(book.id, 7);
    assert_eq!(book.chapter_count, 3);
    assert_eq!(book.chapter_content.len(), 2);
}

#[test]
fn chapter_indices_respect_bounds() {
    let mut app = app_with_book("x");
    assert_eq!(app.next_chapter_index(), Some(1));
    assert_eq!(app.prev_chapter_index(), None);
    let content = vec![PageContent::Text("y".to_string())];
    app.enter_chapter(2, content, vec![]);
    assert_eq!(app.next_chapter_index(), None);
    assert_eq!(app.prev_chapter_index(), Some(1));
}

#[test]
fn reentering_a_unit_rebuilds_and_resets_deterministically() {
    let mut app = app_with_book("alpha beta\ngamma");
    app.move_cursor_down(10);
    app.cursor_right(10);
    app.adjust_margin(3);
    let before: Vec<String> = app
        .current_book
        .as_ref()
        .unwrap()
        .chapter_content
        .iter()
        .map(|l| match l {
            RenderLine::Text(s) => s.clone(),
            RenderLine::Image { .. } => String::new(),
        })
        .collect();
    // same unit, same source content: the rebuilt buffer is identical and
    // the cursor deterministically returns to the top left
    app.enter_chapter(0, vec![PageContent::Text("alpha beta\ngamma".to_string())], vec![]);
    let book = app.current_book.as_ref().unwrap();
    assert_eq!(book.current_line, 0);
    assert_eq!(book.viewport_top, 0);
    assert_eq!(book.word_index, 0);
    assert!(book.selection_anchor.is_none());
    let after: Vec<String> = book
        .chapter_content
        .iter()
        .map(|l| match l {
            RenderLine::Text(s) => s.clone(),
            RenderLine::Image { .. } => String::new(),
        })
        .collect();
    assert_eq!(before, after);
}

#[test]
fn enter_chapter_installs_unit_annotations() {
    let mut app = app_with_book("x");
    let annos = vec![anno(0, 0, "highlight"), anno(1, 4, "question"), anno(1, 5, "summary")];
    app.enter_chapter(1, vec![PageContent::Text("y".to_string())], annos);
    let book = app.current_book.as_ref().unwrap();
    assert_eq!(book.chapter_annotations.len(), 2);
    assert_eq!(book.chapter_annotations[0].start_line, 4);
}

#[test]
fn visual_mode_round_trip() {
    let mut app = app_with_book("one two");
    app.enter_visual_mode();
    assert_eq!(app.view, AppView::Visual);
    assert_eq!(app.get_selection_range(), Some((0, 0, 0, 0)));
    app.cursor_right(10);
    assert_eq!(app.get_selected_text(), "one two");
    app.exit_visual_mode();
    assert_eq!(app.view, AppView::Select);
    assert_eq!(app.get_selection_range(), None);
}

#[test]
fn quick_highlight_uses_selection_or_cursor_word() {
    let mut app = app_with_book("one two three");
    // no selection: the word under the cursor
    app.cursor_right(10);
    let na = app.quick_highlight_request(AnnotationKind::Question).unwrap();
    assert_eq!(
        (na.start_line, na.start_word, na.end_line, na.end_word),
        (0, 1, 0, 1)
    );
    assert_eq!(na.content, "two");
    assert_eq!(na.kind, AnnotationKind::Question);
    assert!(na.note.is_none());
    // with a selection: its range and text
    app.enter_visual_mode();
    app.cursor_right(10);
    let na = app.quick_highlight_request(AnnotationKind::Highlight).unwrap();
    assert_eq!(
        (na.start_line, na.start_word, na.end_line, na.end_word),
        (0, 1, 0, 2)
    );
    assert_eq!(na.content, "two three");
}

#[test]
fn note_annotation_covers_whole_line_without_selection() {
    let mut app = app_with_book("one two three");
    app.annotation_note = "remember".to_string();
    let na = app.annotation_with_note_request().unwrap();
    assert_eq!(
        (na.start_line, na.start_word, na.end_line, na.end_word),
        (0, 0, 0, 2)
    );
    assert_eq!(na.content, "one two three");
    assert_eq!(na.note.as_deref(), Some("remember"));
    assert_eq!(na.kind, AnnotationKind::Summary);
}

#[test]
fn blank_note_is_dropped() {
    let mut app = app_with_book("one");
    app.annotation_note = "   ".to_string();
    let na = app.annotation_with_note_request().unwrap();
    assert!(na.note.is_none());
}

#[test]
fn annotation_listing_filters_and_resets_selection() {
    let mut app = app_with_book("x");
    app.selected_annotation_index = 5;
    app.load_annotations(vec![anno(0, 0, "question"), anno(0, 1, "highlight")]);
    assert_eq!(app.view, AppView::AnnotationList);
    assert_eq!(app.current_annotations.len(), 2);
    assert_eq!(app.selected_annotation_index, 0);
    app.set_annotation_filter(tbook::annotations::AnnotationFilter::Question);
    assert_eq!(app.current_annotations.len(), 1);
    assert_eq!(app.current_annotations[0].start_line, 0);
}

#[test]
fn jump_target_reads_selected_annotation() {
    let mut app = app_with_book("x");
    app.load_annotations(vec![anno(2, 4, "highlight")]);
    assert_eq!(app.jump_target(), Some((2, 4, 0)));
    app.selected_annotation_index = 3;
    assert_eq!(app.jump_target(), None);
}

#[test]
fn install_annotations_keeps_current_unit_only() {
    let mut app = app_with_book("x");
    app.install_annotations(vec![anno(0, 1, "highlight"), anno(2, 9, "highlight")]);
    let book = app.current_book.as_ref().unwrap();
    assert_eq!(book.chapter_annotations.len(), 1);
    assert_eq!(book.chapter_annotations[0].start_line, 1);
}

#[test]
fn open_toc_shows_listing_at_current_chapter() {
    let mut app = app_with_book("x");
    app.enter_chapter(1, vec![PageContent::Text("y".to_string())], vec![]);
    app.open_toc(vec!["One".to_string(), "Two".to_string()]);
    assert_eq!(app.view, AppView::Toc);
    assert_eq!(app.selected_toc_index, 1);
    assert_eq!(app.toc_items, vec!["One".to_string(), "Two".to_string()]);
    assert_eq!(app.toc_target(), Some(1));
}

#[test]
fn explorer_selection_toggles() {
    let mut app = App::new();
    app.explorer_results = vec!["a.epub".to_string(), "b.pdf".to_string()];
    app.selected_explorer_index = 1;
    app.toggle_explorer_selection();
    assert_eq!(app.explorer_selected, vec!["b.pdf".to_string()]);
    app.toggle_explorer_selection();
    assert!(app.explorer_selected.is_empty());
}

#[test]
fn explorer_select_all_dedups() {
    let mut app = App::new();
    app.explorer_results =
        vec!["a.epub".to_string(), "b.pdf".to_string(), "a.epub".to_string()];
    app.select_all_explorer_results();
    assert_eq!(app.explorer_selected, vec!["a.epub".to_string(), "b.pdf".to_string()]);
    app.clear_explorer_selection();
    assert!(app.explorer_selected.is_empty());
}

#[test]
fn import_paths_prefer_selection_then_cursor() {
    let mut app = App::new();
    assert!(app.explorer_paths_to_import().is_empty());
    app.explorer_results = vec!["a.epub".to_string(), "b.pdf".to_string()];
    app.selected_explorer_index = 1;
    assert_eq!(app.explorer_paths_to_import(), vec!["b.pdf".to_string()]);
    app.toggle_explorer_selection();
    app.selected_explorer_index = 0;
    assert_eq!(app.explorer_paths_to_import(), vec!["b.pdf".to_string()]);
}

#[test]
fn search_matches_fold_case_and_trim() {
    let lines = vec![
        RenderLine::Text("Hello World".to_string()),
        RenderLine::Text("  spaced hit  ".to_string()),
        RenderLine::Image { protocol_idx: 0, row_idx: 0 },
        RenderLine::Text("nothing here".to_string()),
    ];
    assert_eq!(search_chapter_lines(&lines, "WORLD"), vec!["Hello World".to_string()]);
    assert_eq!(search_chapter_lines(&lines, "HIT"), vec!["spaced hit".to_string()]);
    assert_eq!(search_chapter_lines(&lines, "absent"), Vec::<String>::new());
}

#[test]
fn path_extensions_fold_case() {
    assert!(path_is_pdf("A/B/Report.PDF"));
    assert!(!path_is_pdf("a/b/book.epub"));
    assert!(path_is_book("x.EPUB"));
    assert!(path_is_book("x.pdf"));
    assert!(!path_is_book("x.txt"));
}

#[test]
fn movement_without_book_is_inert() {
    let mut app = App::new();
    app.move_cursor_down(10);
    app.cursor_right(10);
    app.scroll_viewport_down();
    app.enter_visual_mode();
    assert_eq!(app.view, AppView::Library);
    assert_eq!(app.get_selected_text(), "");
}
