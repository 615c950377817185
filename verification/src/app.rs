//! The application's core state: which view is active, the library
//! listing, the open book with its navigation model, the annotation
//! listing, and the layout settings. Everything here is plain data and
//! arithmetic; storage, documents on disk and the terminal are driven by a
//! thin shell outside the verified core, which hands values in and out.

use vstd::prelude::*;

use crate::annotations::{
    annotations_for_chapter, filter_annotations, AnnotationFilter, AnnotationKind,
};
use crate::db::{AnnotationRecord, BookRecord, VocabRecord};
use crate::layout::{view_lines, LineV, PageContent, RenderLine};
use crate::reader::{selection_range_of, selected_text_of, LoadedBook};
use crate::text::{
    contains_seq, lower_of, lowercase, str_eq, trim_chars, trimmed, chars_vec, string_of,
};

verus! {

/// The screens and modes of the application.
#[derive(Clone, Copy, PartialEq, Eq, Structural, Debug)]
pub enum AppView {
    Library,
    Reader,
    Search,
    Toc,
    Rsvp,
    Annotation,
    AnnotationList,
    Dictionary,
    Visual,
    Select,
    Vocabulary,
    GlobalSearch,
    PathInput,
    FileExplorer,
    Help,
    Stats,
}

/// A colour theme.
#[derive(Clone, Copy, PartialEq, Eq, Structural, Debug)]
pub enum Theme {
    Default,
    Gruvbox,
    Nord,
    Sepia,
}

/// The theme a configuration name denotes, after case folding; unknown
/// names denote the default theme.
pub open spec fn theme_from_folded(s: Seq<char>) -> Theme {
    if s == "gruvbox"@ {
        Theme::Gruvbox
    } else if s == "nord"@ {
        Theme::Nord
    } else if s == "sepia"@ {
        Theme::Sepia
    } else {
        Theme::Default
    }
}

/// The theme after the previous one, cyclically.
pub open spec fn next_theme(t: Theme) -> Theme {
    match t {
        Theme::Default => Theme::Gruvbox,
        Theme::Gruvbox => Theme::Nord,
        Theme::Nord => Theme::Sepia,
        Theme::Sepia => Theme::Default,
    }
}

impl Theme {
    /// The theme a configuration value names, case-insensitively.
    pub fn from_str(value: &str) -> (r: Theme)
        ensures
            r == theme_from_folded(lower_of(value@)),
    {
        let folded = lowercase(value);
        if str_eq(folded.as_str(), "gruvbox") {
            Theme::Gruvbox
        } else if str_eq(folded.as_str(), "nord") {
            Theme::Nord
        } else if str_eq(folded.as_str(), "sepia") {
            Theme::Sepia
        } else {
            Theme::Default
        }
    }
}

/// A request to load one book's cover, handed to a background worker.
#[derive(Clone)]
pub struct CoverRequest {
    pub book_id: i32,
    pub path: String,
}

/// The application's core state.
pub struct App {
    pub view: AppView,
    pub previous_view: Option<AppView>,
    pub books: Vec<BookRecord>,
    pub selected_book_index: usize,
    pub current_book: Option<LoadedBook>,
    pub should_quit: bool,
    pub search_query: String,
    pub toc_items: Vec<String>,
    pub selected_toc_index: usize,
    pub theme: Theme,
    pub annotation_note: String,
    pub all_annotations: Vec<AnnotationRecord>,
    pub current_annotations: Vec<AnnotationRecord>,
    pub selected_annotation_index: usize,
    pub annotation_filter: AnnotationFilter,
    pub dictionary_query: String,
    pub dictionary_result: String,
    pub vocabulary: Vec<VocabRecord>,
    pub selected_vocab_index: usize,
    pub margin: u16,
    pub line_spacing: u16,
    pub daily_goal_words: usize,
    pub global_search_query: String,
    pub global_search_results: Vec<(i32, String, usize, String)>,
    pub selected_search_index: usize,
    pub explorer_path: String,
    pub explorer_results: Vec<String>,
    pub explorer_selected: Vec<String>,
    pub selected_explorer_index: usize,
    pub is_scanning: bool,
}

impl App {
    /// Well-formedness: an open book is well-formed, and the explorer
    /// selection holds no path twice.
    pub open spec fn wf(self) -> bool {
        &&& match self.current_book {
            Some(b) => b.wf(),
            None => true,
        }
        &&& no_dup_paths(self.explorer_selected.deep_view())
    }

    /// The freshly started application, before any configuration applies.
    pub open spec fn is_initial(self) -> bool {
        &&& self.view is Library
        &&& self.previous_view is None
        &&& self.books@.len() == 0
        &&& self.selected_book_index == 0
        &&& self.current_book is None
        &&& self.should_quit == false
        &&& self.search_query@.len() == 0
        &&& self.toc_items@.len() == 0
        &&& self.selected_toc_index == 0
        &&& self.theme is Default
        &&& self.annotation_note@.len() == 0
        &&& self.all_annotations@.len() == 0
        &&& self.current_annotations@.len() == 0
        &&& self.selected_annotation_index == 0
        &&& self.annotation_filter is All
        &&& self.dictionary_query@.len() == 0
        &&& self.dictionary_result@.len() == 0
        &&& self.vocabulary@.len() == 0
        &&& self.selected_vocab_index == 0
        &&& self.margin == 2
        &&& self.line_spacing == 0
        &&& self.daily_goal_words == 1500
        &&& self.global_search_query@.len() == 0
        &&& self.global_search_results@.len() == 0
        &&& self.selected_search_index == 0
        &&& self.explorer_path@.len() == 0
        &&& self.explorer_results@.len() == 0
        &&& self.explorer_selected@.len() == 0
        &&& self.selected_explorer_index == 0
        &&& self.is_scanning == false
    }

    /// A freshly started application. The library listing is handed in by
    /// the storage collaborator afterwards.
    pub fn new() -> (r: App)
        ensures
            r.is_initial(),
            r.wf(),
    {
        App {
            view: AppView::Library,
            previous_view: None,
            books: Vec::new(),
            selected_book_index: 0,
            current_book: None,
            should_quit: false,
            search_query: String::new(),
            toc_items: Vec::new(),
            selected_toc_index: 0,
            theme: Theme::Default,
            annotation_note: String::new(),
            all_annotations: Vec::new(),
            current_annotations: Vec::new(),
            selected_annotation_index: 0,
            annotation_filter: AnnotationFilter::All,
            dictionary_query: String::new(),
            dictionary_result: String::new(),
            vocabulary: Vec::new(),
            selected_vocab_index: 0,
            margin: 2,
            line_spacing: 0,
            daily_goal_words: 1500,
            global_search_query: String::new(),
            global_search_results: Vec::new(),
            selected_search_index: 0,
            explorer_path: String::new(),
            explorer_results: Vec::new(),
            explorer_selected: Vec::new(),
            selected_explorer_index: 0,
            is_scanning: false,
        }
    }

    /// Applies the loaded configuration: layout integers, reading goal,
    /// theme, and the explorer's starting path if none is set yet.
    pub fn apply_config(&mut self, config: &crate::config::AppConfig)
        requires
            old(self).wf(),
        ensures
            final(self).wf(),
            final(self).margin == config.margin,
            final(self).line_spacing == config.line_spacing,
            final(self).daily_goal_words == config.daily_goal_words,
            final(self).theme == theme_from_folded(lower_of(config.theme@)),
            final(self).explorer_path@ == if old(self).explorer_path@.len() == 0 {
                config.library_path@
            } else {
                old(self).explorer_path@
            },
            *final(self) == (App {
                margin: final(self).margin,
                line_spacing: final(self).line_spacing,
                daily_goal_words: final(self).daily_goal_words,
                theme: final(self).theme,
                explorer_path: final(self).explorer_path,
                ..*old(self)
            }),
    {
        self.margin = config.margin;
        self.line_spacing = config.line_spacing;
        self.daily_goal_words = config.daily_goal_words;
        self.theme = Theme::from_str(config.theme.as_str());
        if self.explorer_path.as_str().is_empty() {
            self.explorer_path = config.library_path.clone();
        }
    }

    /// Installs a fresh library listing, clamping the selection: an empty
    /// library or an out-of-range selection resets it to the first entry.
    pub fn refresh_library(&mut self, books: Vec<BookRecord>)
        requires
            old(self).wf(),
        ensures
            final(self).wf(),
            final(self).books == books,
            final(self).selected_book_index == if books@.len() == 0 || old(
                self,
            ).selected_book_index >= books@.len() {
                0int
            } else {
                old(self).selected_book_index as int
            },
            *final(self) == (App {
                books,
                selected_book_index: final(self).selected_book_index,
                ..*old(self)
            }),
    {
        self.books = books;
        if self.books.is_empty() {
            self.selected_book_index = 0;
        } else if self.selected_book_index >= self.books.len() {
            self.selected_book_index = 0;
        }
    }

    /// Cycles to the next colour theme.
    pub fn toggle_theme(&mut self)
        requires
            old(self).wf(),
        ensures
            final(self).wf(),
            *final(self) == (App { theme: next_theme(old(self).theme), ..*old(self) }),
    {
        self.theme = match self.theme {
            Theme::Default => Theme::Gruvbox,
            Theme::Gruvbox => Theme::Nord,
            Theme::Nord => Theme::Sepia,
            Theme::Sepia => Theme::Default,
        };
    }

    /// Adjusts the reader margin by `delta`, clamped to `[0, 20]`.
    pub fn adjust_margin(&mut self, delta: i16)
        requires
            old(self).wf(),
            old(self).margin <= 20,
        ensures
            final(self).wf(),
            final(self).margin == clamp_i16(old(self).margin + delta, 0, 20),
            *final(self) == (App { margin: final(self).margin, ..*old(self) }),
    {
        let new_margin = (self.margin as i32) + (delta as i32);
        self.margin = if new_margin < 0 {
            0
        } else if new_margin > 20 {
            20
        } else {
            new_margin as u16
        };
    }

    /// Adjusts the line spacing by `delta`, clamped to `[0, 5]`.
    pub fn adjust_spacing(&mut self, delta: i16)
        requires
            old(self).wf(),
            old(self).line_spacing <= 5,
        ensures
            final(self).wf(),
            final(self).line_spacing == clamp_i16(old(self).line_spacing + delta, 0, 5),
            *final(self) == (App { line_spacing: final(self).line_spacing, ..*old(self) }),
    {
        let new_spacing = (self.line_spacing as i32) + (delta as i32);
        self.line_spacing = if new_spacing < 0 {
            0
        } else if new_spacing > 5 {
            5
        } else {
            new_spacing as u16
        };
    }
}

impl App {
    /// Scrolls the open book's viewport down; no book, no change.
    pub fn scroll_viewport_down(&mut self)
        requires
            old(self).wf(),
        ensures
            final(self).wf(),
            match old(self).current_book {
                Some(b) => *final(self) == (App {
                    current_book: Some(crate::reader::scroll_down_spec(b)),
                    ..*old(self)
                }),
                None => *final(self) == *old(self),
            },
    {
        match &mut self.current_book {
            Some(b) => b.scroll_viewport_down(),
            None => {},
        }
    }

    /// Scrolls the open book's viewport up; no book, no change.
    pub fn scroll_viewport_up(&mut self)
        requires
            old(self).wf(),
        ensures
            final(self).wf(),
            match old(self).current_book {
                Some(b) => *final(self) == (App {
                    current_book: Some(crate::reader::scroll_up_spec(b)),
                    ..*old(self)
                }),
                None => *final(self) == *old(self),
            },
    {
        match &mut self.current_book {
            Some(b) => b.scroll_viewport_up(),
            None => {},
        }
    }

    /// Moves the cursor down one line; no book, no change.
    pub fn move_cursor_down(&mut self, height: usize)
        requires
            old(self).wf(),
        ensures
            final(self).wf(),
            match old(self).current_book {
                Some(b) => *final(self) == (App {
                    current_book: Some(crate::reader::move_down_spec(b, height as int)),
                    ..*old(self)
                }),
                None => *final(self) == *old(self),
            },
    {
        match &mut self.current_book {
            Some(b) => b.move_cursor_down(height),
            None => {},
        }
    }

    /// Moves the cursor up one line; no book, no change.
    pub fn move_cursor_up(&mut self)
        requires
            old(self).wf(),
        ensures
            final(self).wf(),
            match old(self).current_book {
                Some(b) => *final(self) == (App {
                    current_book: Some(crate::reader::move_up_spec(b)),
                    ..*old(self)
                }),
                None => *final(self) == *old(self),
            },
    {
        match &mut self.current_book {
            Some(b) => b.move_cursor_up(),
            None => {},
        }
    }

    /// Moves the cursor right one word; no book, no change.
    pub fn cursor_right(&mut self, height: usize)
        requires
            old(self).wf(),
        ensures
            final(self).wf(),
            match old(self).current_book {
                Some(b) => *final(self) == (App {
                    current_book: Some(crate::reader::cursor_right_spec(b, height as int)),
                    ..*old(self)
                }),
                None => *final(self) == *old(self),
            },
    {
        match &mut self.current_book {
            Some(b) => b.cursor_right(height),
            None => {},
        }
    }

    /// Moves the cursor left one word; no book, no change.
    pub fn cursor_left(&mut self)
        requires
            old(self).wf(),
        ensures
            final(self).wf(),
            match old(self).current_book {
                Some(b) => *final(self) == (App {
                    current_book: Some(crate::reader::cursor_left_spec(b)),
                    ..*old(self)
                }),
                None => *final(self) == *old(self),
            },
    {
        match &mut self.current_book {
            Some(b) => b.cursor_left(),
            None => {},
        }
    }

    /// Anchors a selection at the cursor and enters visual mode; only on a
    /// text line of an open book.
    pub fn enter_visual_mode(&mut self)
        requires
            old(self).wf(),
        ensures
            final(self).wf(),
            match old(self).current_book {
                None => *final(self) == *old(self),
                Some(b) => if b.buffer()[b.current_line as int] is Text {
                    *final(self) == (App {
                        current_book: Some(LoadedBook {
                            selection_anchor: Some((b.current_line, b.word_index)),
                            ..b
                        }),
                        view: AppView::Visual,
                        ..*old(self)
                    })
                } else {
                    *final(self) == *old(self)
                },
            },
    {
        let entered = match &mut self.current_book {
            Some(b) => b.enter_selection(),
            None => false,
        };
        if entered {
            self.view = AppView::Visual;
        }
    }

    /// Clears the selection anchor; visual mode falls back to select mode.
    pub fn exit_visual_mode(&mut self)
        requires
            old(self).wf(),
        ensures
            final(self).wf(),
            final(self).view == if old(self).current_book is Some && old(self).view is Visual {
                AppView::Select
            } else {
                old(self).view
            },
            match old(self).current_book {
                None => *final(self) == *old(self),
                Some(b) => *final(self) == (App {
                    current_book: Some(LoadedBook { selection_anchor: None, ..b }),
                    view: final(self).view,
                    ..*old(self)
                }),
            },
    {
        let had_book = match &mut self.current_book {
            Some(b) => {
                b.exit_selection();
                true
            },
            None => false,
        };
        if had_book && self.view == AppView::Visual {
            self.view = AppView::Select;
        }
    }

    /// The active range of the open book, earlier point first.
    pub fn get_selection_range(&self) -> (r: Option<(usize, usize, usize, usize)>)
        ensures
            r == match self.current_book {
                Some(b) => selection_range_of(b),
                None => None::<(usize, usize, usize, usize)>,
            },
    {
        match &self.current_book {
            Some(b) => b.get_selection_range(),
            None => None,
        }
    }

    /// The text of the open book's active selection; empty without one.
    pub fn get_selected_text(&self) -> (r: String)
        requires
            self.wf(),
        ensures
            r@ == match self.current_book {
                Some(b) => selected_text_of(b),
                None => Seq::<char>::empty(),
            },
    {
        match &self.current_book {
            Some(b) => b.get_selected_text(),
            None => String::new(),
        }
    }

    /// The unit after the current one, when there is one to advance to.
    pub fn next_chapter_index(&self) -> (r: Option<usize>)
        requires
            self.wf(),
        ensures
            r == match self.current_book {
                Some(b) => if b.current_chapter + 1 < b.chapter_count as int {
                    Some((b.current_chapter + 1) as usize)
                } else {
                    None::<usize>
                },
                None => None::<usize>,
            },
    {
        match &self.current_book {
            Some(b) => {
                if b.current_chapter + 1 < b.chapter_count {
                    Some(b.current_chapter + 1)
                } else {
                    None
                }
            },
            None => None,
        }
    }

    /// The unit before the current one, when there is one.
    pub fn prev_chapter_index(&self) -> (r: Option<usize>)
        ensures
            r == match self.current_book {
                Some(b) => if b.current_chapter > 0 {
                    Some((b.current_chapter - 1) as usize)
                } else {
                    None::<usize>
                },
                None => None::<usize>,
            },
    {
        match &self.current_book {
            Some(b) => {
                if b.current_chapter > 0 {
                    Some(b.current_chapter - 1)
                } else {
                    None
                }
            },
            None => None,
        }
    }

    /// Shows the table of contents for the open book.
    pub fn open_toc(&mut self, toc: Vec<String>)
        requires
            old(self).wf(),
        ensures
            final(self).wf(),
            match old(self).current_book {
                None => *final(self) == *old(self),
                Some(b) => *final(self) == (App {
                    toc_items: toc,
                    selected_toc_index: b.current_chapter,
                    view: AppView::Toc,
                    ..*old(self)
                }),
            },
    {
        match &self.current_book {
            Some(b) => {
                self.selected_toc_index = b.current_chapter;
                self.toc_items = toc;
                self.view = AppView::Toc;
            },
            None => {},
        }
    }

    /// The unit the table-of-contents selection names, when a book is open.
    pub fn toc_target(&self) -> (r: Option<usize>)
        ensures
            r == if self.current_book is Some {
                Some(self.selected_toc_index)
            } else {
                None::<usize>
            },
    {
        match &self.current_book {
            Some(_) => Some(self.selected_toc_index),
            None => None,
        }
    }

    /// Where the selected annotation points: its unit and starting word.
    pub fn jump_target(&self) -> (r: Option<(usize, usize, usize)>)
        ensures
            r == if self.current_book is Some && (self.selected_annotation_index as int)
                < self.current_annotations@.len() {
                let a = self.current_annotations@[self.selected_annotation_index as int];
                Some((a.chapter, a.start_line, a.start_word))
            } else {
                None::<(usize, usize, usize)>
            },
    {
        match &self.current_book {
            Some(_) => {
                if self.selected_annotation_index < self.current_annotations.len() {
                    let a = &self.current_annotations[self.selected_annotation_index];
                    Some((a.chapter, a.start_line, a.start_word))
                } else {
                    None
                }
            },
            None => None,
        }
    }

    /// Opens one unit of a book as the current book and shows the reader.
    pub fn load_book(
        &mut self,
        id: i32,
        path: String,
        chapter: usize,
        chapter_count: usize,
        start_line: usize,
        content: Vec<PageContent>,
        annos: Vec<AnnotationRecord>,
    )
        requires
            old(self).wf(),
            (chapter as int) < chapter_count as int,
        ensures
            final(self).wf(),
            final(self).current_book matches Some(b) && crate::reader::opened_unit(
                id,
                path@,
                chapter,
                chapter_count,
                start_line,
                content@,
                annos@,
                b,
            ),
            *final(self) == (App {
                current_book: final(self).current_book,
                view: AppView::Reader,
                ..*old(self)
            }),
    {
        let b = LoadedBook::open_unit(id, path, chapter, chapter_count, start_line, content, annos);
        self.current_book = Some(b);
        self.view = AppView::Reader;
    }

    /// Re-enters the open book at the given unit, rebuilding the buffer and
    /// resetting the cursor; see [`LoadedBook::enter_chapter`].
    pub fn enter_chapter(
        &mut self,
        chapter: usize,
        content: Vec<PageContent>,
        annos: Vec<AnnotationRecord>,
    )
        requires
            old(self).wf(),
            old(self).current_book matches Some(b) && (chapter as int) < b.chapter_count as int,
        ensures
            final(self).wf(),
            final(self).current_book matches Some(nb) && {
                let ob = old(self).current_book->Some_0;
                &&& nb.current_chapter == chapter
                &&& nb.current_line == 0
                &&& nb.viewport_top == 0
                &&& nb.word_index == 0
                &&& nb.selection_anchor is None
                &&& nb.buffer() == crate::layout::flattened_buffer(content@)
                &&& nb.images@ == crate::layout::flat_images(content@)
                &&& nb.chapter_annotations@ == annos@.filter(
                    |a: AnnotationRecord| a.chapter == chapter,
                )
                &&& nb.id == ob.id
                &&& nb.path == ob.path
                &&& nb.chapter_count == ob.chapter_count
                &&& nb.words_read == ob.words_read
                &&& nb.session_words_logged == ob.session_words_logged
            },
            *final(self) == (App { current_book: final(self).current_book, ..*old(self) }),
    {
        match &mut self.current_book {
            Some(b) => b.enter_chapter(chapter, content, annos),
            None => {},
        }
    }

    /// Positions the cursor of the open book, clamped into its buffer.
    pub fn position_cursor(&mut self, line: usize, word: usize)
        requires
            old(self).wf(),
        ensures
            final(self).wf(),
            match old(self).current_book {
                None => *final(self) == *old(self),
                Some(b) => {
                    &&& final(self).current_book matches Some(nb)
                    &&& nb.current_line == if (line as int) < b.line_count() {
                        line as int
                    } else {
                        b.line_count() - 1
                    }
                    &&& nb.viewport_top == nb.current_line
                    &&& nb.word_index == nb.synced_word(nb.current_line as int, word as int)
                    &&& nb == (LoadedBook {
                        current_line: nb.current_line,
                        viewport_top: nb.viewport_top,
                        word_index: nb.word_index,
                        selection_anchor: None,
                        ..b
                    })
                    &&& *final(self) == (App {
                        current_book: final(self).current_book,
                        ..*old(self)
                    })
                },
            },
    {
        match &mut self.current_book {
            Some(b) => b.position_cursor(line, word),
            None => {},
        }
    }
}

/// A new annotation to hand to the storage collaborator.
pub struct NewAnnotation {
    pub chapter: usize,
    pub start_line: usize,
    pub start_word: usize,
    pub end_line: usize,
    pub end_word: usize,
    pub content: String,
    pub note: Option<String>,
    pub kind: AnnotationKind,
}

/// What a quick highlight covers: the active selection with its text when
/// that text is non-empty; otherwise the single word under the cursor.
pub open spec fn quick_highlight_of(b: LoadedBook) -> Option<
    (usize, usize, usize, usize, Seq<char>),
> {
    match selection_range_of(b) {
        Some(r) => {
            let t = selected_text_of(b);
            if t.len() == 0 {
                None
            } else {
                Some((r.0, r.1, r.2, r.3, t))
            }
        },
        None => match b.buffer()[b.current_line as int] {
            LineV::Text(tl) => {
                let ws = crate::text::words(tl);
                if (b.word_index as int) < ws.len() {
                    Some((b.current_line, b.word_index, b.current_line, b.word_index, ws[b.word_index as int]))
                } else {
                    None
                }
            },
            LineV::Image { .. } => None,
        },
    }
}

/// What a note annotation covers: the active selection with its text, or
/// the whole current text line; none on an image row or for empty content.
pub open spec fn note_annotation_of(b: LoadedBook) -> Option<
    (usize, usize, usize, usize, Seq<char>),
> {
    match b.buffer()[b.current_line as int] {
        LineV::Image { .. } => None,
        LineV::Text(tl) => {
            let content = match selection_range_of(b) {
                Some(_) => selected_text_of(b),
                None => tl,
            };
            if content.len() == 0 {
                None
            } else {
                match selection_range_of(b) {
                    Some(r) => Some((r.0, r.1, r.2, r.3, content)),
                    None => Some(
                        (
                            b.current_line,
                            0,
                            b.current_line,
                            crate::reader::sub0(crate::text::words(tl).len() as int, 1) as usize,
                            content,
                        ),
                    ),
                }
            }
        },
    }
}

impl App {
    /// The quick highlight the current state asks for, of the given kind;
    /// see [`quick_highlight_of`]. Persisting it is the caller's part.
    pub fn quick_highlight_request(&self, kind: AnnotationKind) -> (r: Option<NewAnnotation>)
        requires
            self.wf(),
        ensures
            match self.current_book {
                None => r is None,
                Some(b) => match r {
                    Some(na) => {
                        &&& quick_highlight_of(b) matches Some(q)
                        &&& (na.start_line, na.start_word, na.end_line, na.end_word) == (
                        q.0,
                        q.1,
                        q.2,
                        q.3,
                        )
                        &&& na.content@ == q.4
                        &&& na.chapter == b.current_chapter
                        &&& na.note is None
                        &&& na.kind == kind
                    },
                    None => quick_highlight_of(b) is None,
                },
            },
    {
        let b = match &self.current_book {
            Some(b) => b,
            None => {
                return None;
            },
        };
        let range = b.get_selection_range();
        match range {
            Some((sl, sw, el, ew)) => {
                let text = b.get_selected_text();
                if text.as_str().is_empty() {
                    None
                } else {
                    Some(NewAnnotation {
                        chapter: b.current_chapter,
                        start_line: sl,
                        start_word: sw,
                        end_line: el,
                        end_word: ew,
                        content: text,
                        note: None,
                        kind,
                    })
                }
            },
            None => {
                match &b.chapter_content[b.current_line] {
                    RenderLine::Text(s) => {
                        let ws = crate::text::split_words_str(s.as_str());
                        if b.word_index < ws.len() {
                            let w = ws[b.word_index].clone();
                            proof {
                                assert(w@ == ws.deep_view()[b.word_index as int]);
                            }
                            Some(NewAnnotation {
                                chapter: b.current_chapter,
                                start_line: b.current_line,
                                start_word: b.word_index,
                                end_line: b.current_line,
                                end_word: b.word_index,
                                content: w,
                                note: None,
                                kind,
                            })
                        } else {
                            None
                        }
                    },
                    RenderLine::Image { .. } => None,
                }
            },
        }
    }

    /// The note annotation the current state asks for, with the entered
    /// note attached (blank notes are dropped); see [`note_annotation_of`].
    pub fn annotation_with_note_request(&self) -> (r: Option<NewAnnotation>)
        requires
            self.wf(),
        ensures
            match self.current_book {
                None => r is None,
                Some(b) => match r {
                    Some(na) => {
                        &&& note_annotation_of(b) matches Some(q)
                        &&& (na.start_line, na.start_word, na.end_line, na.end_word) == (
                        q.0,
                        q.1,
                        q.2,
                        q.3,
                        )
                        &&& na.content@ == q.4
                        &&& na.chapter == b.current_chapter
                        &&& na.note == if crate::text::is_blank(self.annotation_note@) {
                            None::<String>
                        } else {
                            Some(self.annotation_note)
                        }
                        &&& na.kind == AnnotationKind::Summary
                    },
                    None => note_annotation_of(b) is None,
                },
            },
    {
        let b = match &self.current_book {
            Some(b) => b,
            None => {
                return None;
            },
        };
        let line_text = match &b.chapter_content[b.current_line] {
            RenderLine::Text(s) => s.clone(),
            RenderLine::Image { .. } => {
                return None;
            },
        };
        let range = b.get_selection_range();
        let content = match range {
            Some(_) => b.get_selected_text(),
            None => line_text.clone(),
        };
        if content.as_str().is_empty() {
            return None;
        }
        let (sl, sw, el, ew) = match range {
            Some(r) => r,
            None => {
                let c = crate::text::count_words_str(line_text.as_str());
                let last: usize = if c == 0 {
                    0
                } else {
                    c - 1
                };
                (b.current_line, 0, b.current_line, last)
            },
        };
        let note = if crate::text::is_blank_str(self.annotation_note.as_str()) {
            None
        } else {
            Some(self.annotation_note.clone())
        };
        Some(NewAnnotation {
            chapter: b.current_chapter,
            start_line: sl,
            start_word: sw,
            end_line: el,
            end_word: ew,
            content,
            note,
            kind: AnnotationKind::Summary,
        })
    }

    /// Reinstalls the open book's annotations from a fresh full listing,
    /// keeping only the current unit's.
    pub fn install_annotations(&mut self, all_for_book: Vec<AnnotationRecord>)
        requires
            old(self).wf(),
        ensures
            final(self).wf(),
            match old(self).current_book {
                None => *final(self) == *old(self),
                Some(b) => *final(self) == (App {
                    current_book: Some(LoadedBook {
                        chapter_annotations: final(self).current_book->Some_0.chapter_annotations,
                        ..b
                    }),
                    ..*old(self)
                }) && final(self).current_book->Some_0.chapter_annotations@ == all_for_book@.filter(
                    |a: AnnotationRecord| a.chapter == b.current_chapter,
                ),
            },
    {
        match &mut self.current_book {
            Some(b) => {
                let filtered = annotations_for_chapter(&all_for_book, b.current_chapter);
                b.chapter_annotations = filtered;
            },
            None => {},
        }
    }

    /// Recomputes the visible annotation listing for the current filter and
    /// resets its selection.
    fn apply_annotation_filter(&mut self)
        requires
            old(self).wf(),
        ensures
            final(self).wf(),
            final(self).current_annotations@ == filtered_annotations(
                old(self).all_annotations@,
                old(self).annotation_filter,
            ),
            *final(self) == (App {
                current_annotations: final(self).current_annotations,
                selected_annotation_index: 0,
                ..*old(self)
            }),
    {
        let filtered = filter_annotations(&self.all_annotations, self.annotation_filter);
        self.current_annotations = filtered;
        self.selected_annotation_index = 0;
    }

    /// Shows the annotation listing for the open book, loaded fresh.
    pub fn load_annotations(&mut self, annos: Vec<AnnotationRecord>)
        requires
            old(self).wf(),
        ensures
            final(self).wf(),
            match old(self).current_book {
                None => *final(self) == *old(self),
                Some(_) => *final(self) == (App {
                    all_annotations: annos,
                    current_annotations: final(self).current_annotations,
                    selected_annotation_index: 0,
                    view: AppView::AnnotationList,
                    ..*old(self)
                }) && final(self).current_annotations@ == filtered_annotations(
                    annos@,
                    old(self).annotation_filter,
                ),
            },
    {
        match &self.current_book {
            Some(_) => {
                self.all_annotations = annos;
                self.apply_annotation_filter();
                self.view = AppView::AnnotationList;
            },
            None => {},
        }
    }

    /// Switches the annotation filter and recomputes the listing.
    pub fn set_annotation_filter(&mut self, filter: AnnotationFilter)
        requires
            old(self).wf(),
        ensures
            final(self).wf(),
            final(self).current_annotations@ == filtered_annotations(
                old(self).all_annotations@,
                filter,
            ),
            *final(self) == (App {
                annotation_filter: filter,
                current_annotations: final(self).current_annotations,
                selected_annotation_index: 0,
                ..*old(self)
            }),
    {
        self.annotation_filter = filter;
        self.apply_annotation_filter();
    }
}

/// The annotations a filter keeps, in persisted order.
pub open spec fn filtered_annotations(
    annos: Seq<AnnotationRecord>,
    filter: AnnotationFilter,
) -> Seq<AnnotationRecord> {
    match filter.kind_selector() {
        None => annos,
        Some(k) => annos.filter(|a: AnnotationRecord| crate::annotations::has_kind(a, k)),
    }
}

/// The sequence with its later duplicates dropped: each path keeps its
/// first occurrence only.
pub open spec fn dedup_first(s: Seq<Seq<char>>) -> Seq<Seq<char>>
    decreases s.len(),
{
    if s.len() == 0 {
        Seq::empty()
    } else {
        let d = dedup_first(s.drop_last());
        if d.contains(s.last()) {
            d
        } else {
            d.push(s.last())
        }
    }
}

proof fn lemma_dedup_first_sound(s: Seq<Seq<char>>)
    ensures
        no_dup_paths(dedup_first(s)),
        forall|x: Seq<char>| dedup_first(s).contains(x) <==> s.contains(x),
    decreases s.len(),
{
    if s.len() > 0 {
        lemma_dedup_first_sound(s.drop_last());
        let d = dedup_first(s.drop_last());
        assert forall|x: Seq<char>| s.contains(x) implies dedup_first(s).contains(x) by {
            let i = choose|i: int| 0 <= i < s.len() && s[i] == x;
            if i < s.len() - 1 {
                assert(s.drop_last()[i] == x);
                assert(s.drop_last().contains(x));
                if !d.contains(s.last()) {
                    assert(d.push(s.last()).contains(x)) by {
                        let j = choose|j: int| 0 <= j < d.len() && d[j] == x;
                        assert(d.push(s.last())[j] == x);
                    }
                }
            } else {
                if d.contains(s.last()) {
                } else {
                    assert(d.push(s.last()).last() == x);
                }
            }
        }
        assert forall|x: Seq<char>| dedup_first(s).contains(x) implies s.contains(x) by {
            if d.contains(s.last()) || x != s.last() {
                if dedup_first(s).contains(x) {
                    let j = choose|j: int| 0 <= j < dedup_first(s).len() && dedup_first(s)[j] == x;
                    if j < d.len() {
                        assert(d.contains(x));
                        assert(s.drop_last().contains(x));
                        let i = choose|i: int|
                            0 <= i < s.drop_last().len() && s.drop_last()[i] == x;
                        assert(s[i] == x);
                    } else {
                        assert(s.last() == x);
                        assert(s[s.len() - 1] == x);
                    }
                }
            } else {
                assert(s[s.len() - 1] == x);
            }
        }
    }
}

impl App {
    /// Toggles whether the explorer entry under the cursor is selected.
    pub fn toggle_explorer_selection(&mut self)
        requires
            old(self).wf(),
        ensures
            final(self).wf(),
            (old(self).selected_explorer_index as int) >= old(self).explorer_results@.len()
                ==> *final(self) == *old(self),
            (old(self).selected_explorer_index as int) < old(self).explorer_results@.len() ==> {
                let p = old(self).explorer_results.deep_view()[old(
                    self,
                ).selected_explorer_index as int];
                let sel = old(self).explorer_selected.deep_view();
                &&& *final(self) == (App {
                    explorer_selected: final(self).explorer_selected,
                    ..*old(self)
                })
                &&& (!sel.contains(p) ==> final(self).explorer_selected.deep_view() == sel.push(
                    p,
                ))
                &&& (sel.contains(p) ==> exists|k: int|
                    0 <= k < sel.len() && sel[k] == p
                        && #[trigger] sel.remove(k) == final(self).explorer_selected.deep_view())
            },
    {
        if self.selected_explorer_index >= self.explorer_results.len() {
            return ;
        }
        let p = self.explorer_results[self.selected_explorer_index].clone();
        let ghost sel = self.explorer_selected.deep_view();
        let mut k: usize = 0;
        while k < self.explorer_selected.len()
            invariant
                old(self).wf(),
                no_dup_paths(sel),
                (old(self).selected_explorer_index as int) < old(self).explorer_results@.len(),
                *self == *old(self),
                self.explorer_selected == old(self).explorer_selected,
                k <= self.explorer_selected@.len(),
                sel == self.explorer_selected.deep_view(),
                p@ == old(self).explorer_results.deep_view()[old(
                    self,
                ).selected_explorer_index as int],
                forall|j: int| 0 <= j < k ==> sel[j] != p@,
            decreases self.explorer_selected@.len() - k,
        {
            if str_eq(self.explorer_selected[k].as_str(), p.as_str()) {
                let ghost prev = self.explorer_selected.deep_view();
                self.explorer_selected.remove(k);
                proof {
                    assert(sel.contains(p@)) by {
                        assert(sel[k as int] == p@);
                    }
                    assert(self.explorer_selected.deep_view() =~~= sel.remove(k as int));
                    assert forall|i: int, j: int|
                        0 <= i < j < self.explorer_selected.deep_view().len() implies self.explorer_selected.deep_view()[i]
                        != self.explorer_selected.deep_view()[j] by {
                        assert(sel.remove(k as int)[i] == if i < k {
                            sel[i]
                        } else {
                            sel[i + 1]
                        });
                        assert(sel.remove(k as int)[j] == if j < k {
                            sel[j]
                        } else {
                            sel[j + 1]
                        });
                    }
                }
                return ;
            }
            k += 1;
        }
        proof {
            assert(!sel.contains(p@));
        }
        let ghost prev = self.explorer_selected.deep_view();
        self.explorer_selected.push(p);
        proof {
            assert(self.explorer_selected.deep_view() =~~= sel.push(p@));
            assert forall|i: int, j: int|
                0 <= i < j < self.explorer_selected.deep_view().len() implies self.explorer_selected.deep_view()[i]
                != self.explorer_selected.deep_view()[j] by {
                if j < sel.len() {
                } else {
                    assert(sel.push(p@)[j] == p@);
                    assert(!sel.contains(p@));
                    assert(sel.push(p@)[i] == sel[i]);
                }
            }
        }
    }

    /// Selects every explorer result, each path once.
    pub fn select_all_explorer_results(&mut self)
        requires
            old(self).wf(),
        ensures
            final(self).wf(),
            final(self).explorer_selected.deep_view() == dedup_first(
                old(self).explorer_results.deep_view(),
            ),
            *final(self) == (App {
                explorer_selected: final(self).explorer_selected,
                ..*old(self)
            }),
    {
        let ghost results = self.explorer_results.deep_view();
        let mut out: Vec<String> = Vec::new();
        let mut i: usize = 0;
        while i < self.explorer_results.len()
            invariant
                i <= self.explorer_results@.len(),
                results == self.explorer_results.deep_view(),
                out.deep_view() =~~= dedup_first(results.take(i as int)),
            decreases self.explorer_results@.len() - i,
        {
            let p = self.explorer_results[i].clone();
            let ghost cur = out.deep_view();
            let mut seen = false;
            let mut k: usize = 0;
            while k < out.len()
                invariant
                    k <= out@.len(),
                    cur == out.deep_view(),
                    seen == exists|j: int| 0 <= j < k && cur[j] == p@,
                decreases out@.len() - k,
            {
                if str_eq(out[k].as_str(), p.as_str()) {
                    proof {
                        assert(cur[k as int] == p@);
                    }
                    seen = true;
                }
                k += 1;
            }
            proof {
                assert(seen == cur.contains(p@));
                assert(results.take(i + 1).drop_last() =~~= results.take(i as int));
                assert(results.take(i + 1).last() == results[i as int]);
                assert(p@ == results[i as int]);
            }
            if !seen {
                out.push(p);
                proof {
                    assert(out.deep_view() =~~= cur.push(p@));
                }
            }
            i += 1;
            proof {
                assert(out.deep_view() =~~= dedup_first(results.take(i as int)));
            }
        }
        proof {
            assert(results.take(results.len() as int) =~~= results);
            lemma_dedup_first_sound(results);
        }
        self.explorer_selected = out;
    }

    /// Clears the explorer selection.
    pub fn clear_explorer_selection(&mut self)
        requires
            old(self).wf(),
        ensures
            final(self).wf(),
            final(self).explorer_selected@.len() == 0,
            *final(self) == (App {
                explorer_selected: final(self).explorer_selected,
                ..*old(self)
            }),
    {
        self.explorer_selected = Vec::new();
    }

    /// The paths an import acts on: the selection if any, else the single
    /// entry under the cursor, else nothing.
    pub fn explorer_paths_to_import(&self) -> (r: Vec<String>)
        ensures
            self.explorer_results@.len() == 0 ==> r@.len() == 0,
            self.explorer_results@.len() > 0 && self.explorer_selected@.len() > 0 ==> r.deep_view()
                == self.explorer_selected.deep_view(),
            self.explorer_results@.len() > 0 && self.explorer_selected@.len() == 0 ==> r.deep_view()
                == if (self.selected_explorer_index as int) < self.explorer_results@.len() {
                seq![
                    self.explorer_results.deep_view()[self.selected_explorer_index as int],
                ]
            } else {
                Seq::<Seq<char>>::empty()
            },
    {
        let mut out: Vec<String> = Vec::new();
        if self.explorer_results.is_empty() {
            return out;
        }
        if self.explorer_selected.is_empty() {
            if self.selected_explorer_index < self.explorer_results.len() {
                out.push(self.explorer_results[self.selected_explorer_index].clone());
                proof {
                    assert(out.deep_view() =~~= seq![
                        self.explorer_results.deep_view()[self.selected_explorer_index as int],
                    ]);
                }
            }
            return out;
        }
        let mut i: usize = 0;
        while i < self.explorer_selected.len()
            invariant
                i <= self.explorer_selected@.len(),
                out.deep_view() =~~= self.explorer_selected.deep_view().take(i as int),
            decreases self.explorer_selected@.len() - i,
        {
            let ghost prev = out.deep_view();
            let s = self.explorer_selected[i].clone();
            out.push(s);
            i += 1;
            proof {
                assert(out.deep_view() =~~= prev.push(s@));
                assert(out.deep_view() =~~= self.explorer_selected.deep_view().take(i as int));
            }
        }
        proof {
            assert(self.explorer_selected.deep_view().take(
                self.explorer_selected@.len() as int,
            ) =~~= self.explorer_selected.deep_view());
        }
        out
    }
}

/// The lines of one unit's buffer that match a query, case-insensitively,
/// each trimmed: what a global search reports for that unit.
pub open spec fn search_matches(buf: Seq<LineV>, i: int, q: Seq<char>) -> Seq<Seq<char>>
    decreases buf.len() - i,
{
    if i < 0 || i >= buf.len() {
        Seq::empty()
    } else {
        (match buf[i] {
            LineV::Text(t) => if contains_seq(lower_of(t), q) {
                seq![trimmed(t)]
            } else {
                Seq::empty()
            },
            LineV::Image { .. } => Seq::empty(),
        }) + search_matches(buf, i + 1, q)
    }
}

/// The text lines of a buffer whose folded text contains the folded query,
/// trimmed, in order.
pub fn search_chapter_lines(lines: &Vec<RenderLine>, query: &str) -> (r: Vec<String>)
    ensures
        r.deep_view() == search_matches(view_lines(lines@), 0, lower_of(query@)),
{
    let ghost buf = view_lines(lines@);
    let ghost q = lower_of(query@);
    let lowered_query = lowercase(query);
    let qv = chars_vec(lowered_query.as_str());
    let n = lines.len();
    let mut out: Vec<String> = Vec::new();
    let mut i: usize = 0;
    proof {
        assert(buf.len() == lines@.len());
    }
    while i < n
        invariant
            i <= n == lines@.len(),
            buf == view_lines(lines@),
            buf.len() == n,
            q == lower_of(query@),
            qv@ == q,
            search_matches(buf, 0, q) =~~= out.deep_view() + search_matches(buf, i as int, q),
        decreases n - i,
    {
        match &lines[i] {
            RenderLine::Text(s) => {
                proof {
                    assert(buf[i as int] == LineV::Text(s@));
                }
                let lowered = lowercase(s.as_str());
                let lv = chars_vec(lowered.as_str());
                if crate::text::contains_chars(&lv, &qv) {
                    let cs = chars_vec(s.as_str());
                    let tv = trim_chars(&cs);
                    let ghost prev = out.deep_view();
                    let t = string_of(&tv);
                    out.push(t);
                    proof {
                        assert(out.deep_view() =~~= prev.push(t@));
                    }
                }
            },
            RenderLine::Image { .. } => {
                proof {
                    assert(buf[i as int] is Image);
                }
            },
        }
        i += 1;
        proof {
            assert(search_matches(buf, 0, q) =~~= out.deep_view() + search_matches(
                buf,
                i as int,
                q,
            ));
        }
    }
    out
}

/// Whether a path names a page-addressable (PDF) document, by its folded
/// extension.
pub fn path_is_pdf(path: &str) -> (r: bool)
    ensures
        r == crate::text::ends_with(lower_of(path@), ".pdf"@),
{
    let folded = lowercase(path);
    let fv = chars_vec(folded.as_str());
    let ext = chars_vec(".pdf");
    crate::text::ends_with_chars(&fv, &ext)
}

/// Whether a path names a document the library can open at all.
pub fn path_is_book(path: &str) -> (r: bool)
    ensures
        r == (crate::text::ends_with(lower_of(path@), ".epub"@) || crate::text::ends_with(
            lower_of(path@),
            ".pdf"@,
        )),
{
    let folded = lowercase(path);
    let fv = chars_vec(folded.as_str());
    let epub_ext = chars_vec(".epub");
    let pdf_ext = chars_vec(".pdf");
    crate::text::ends_with_chars(&fv, &epub_ext) || crate::text::ends_with_chars(&fv, &pdf_ext)
}

/// `v` clamped into `[lo, hi]`.
pub open spec fn clamp_i16(v: int, lo: int, hi: int) -> int {
    if v < lo {
        lo
    } else if v > hi {
        hi
    } else {
        v
    }
}

/// No path occurs twice.
pub open spec fn no_dup_paths(s: Seq<Seq<char>>) -> bool {
    forall|i: int, j: int| 0 <= i < j < s.len() ==> s[i] != s[j]
}

/// The height in lines left for reader content, given the terminal height,
/// the configured margin, and which bars are shown.
pub fn reader_content_height(
    term_height: u16,
    margin: u16,
    view: AppView,
    focus_mode: bool,
    show_status: bool,
) -> (r: usize)
    ensures
        r == crate::reader::sub0(
            crate::reader::sub0(
                term_height as int,
                (if focus_mode {
                    0int
                } else {
                    1int
                }) + (if show_status {
                    1int
                } else {
                    0int
                }) + (if view is Search {
                    3int
                } else {
                    0int
                }),
            ),
            2 * margin,
        ),
{
    let top_bar: u16 = if focus_mode {
        0
    } else {
        1
    };
    let status_bar: u16 = if show_status {
        1
    } else {
        0
    };
    let search_bar: u16 = if view == AppView::Search {
        3
    } else {
        0
    };
    let content = term_height.saturating_sub(top_bar + status_bar + search_bar);
    let content = content.saturating_sub(margin.saturating_add(margin));
    proof {
        assert(margin.saturating_add(margin) == 2 * margin || margin.saturating_add(margin)
            == u16::MAX);
        assert(2 * (margin as int) <= 2 * 65535 < 0x2_0000);
    }
    content as usize
}

} // verus!
