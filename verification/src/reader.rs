//! The navigation model: one open unit of a book, with its render buffer,
//! cursor, viewport and selection. All index arithmetic is clamped to the
//! buffer bounds, and the cursor's word index is re-validated after every
//! vertical move, so no operation ever addresses past the buffer.

use vstd::prelude::*;

use crate::db::AnnotationRecord;
use crate::layout::{
    flat_images, flatten_content, flattened_buffer, line_words, view_lines, ImageData, LineV,
    PageContent, RenderLine,
};
use crate::annotations::annotations_for_chapter;
use crate::text::{count_words_str, join_words, join_with_spaces, split_words_str, words};

verus! {

/// `a - b`, not below zero.
pub open spec fn sub0(a: int, b: int) -> int {
    if a >= b {
        a - b
    } else {
        0
    }
}

/// The currently open unit of a book: its render buffer and the transient
/// cursor, viewport and selection state over it.
#[verifier::ext_equal]
pub struct LoadedBook {
    pub id: i32,
    pub path: String,
    pub current_chapter: usize,
    pub chapter_count: usize,
    pub current_line: usize,
    pub viewport_top: usize,
    pub chapter_content: Vec<RenderLine>,
    pub images: Vec<ImageData>,
    pub word_index: usize,
    pub selection_anchor: Option<(usize, usize)>,
    pub chapter_annotations: Vec<AnnotationRecord>,
    pub words_read: usize,
    pub session_words_logged: usize,
}

impl LoadedBook {
    /// The model of the render buffer.
    pub open spec fn buffer(self) -> Seq<LineV> {
        view_lines(self.chapter_content@)
    }

    /// How many lines the buffer holds.
    pub open spec fn line_count(self) -> int {
        self.buffer().len() as int
    }

    /// How many words stand on the given buffer line.
    pub open spec fn wc(self, line: int) -> int {
        line_words(self.buffer()[line]).len() as int
    }

    /// A valid word index for the given line: below the word count, or zero
    /// on a line without words (an empty line or an image row).
    pub open spec fn valid_word(self, line: int, w: int) -> bool {
        if self.wc(line) == 0 {
            w == 0
        } else {
            0 <= w < self.wc(line)
        }
    }

    /// Well-formedness: the cursor, viewport and anchor address the buffer.
    pub open spec fn wf(self) -> bool {
        &&& self.line_count() >= 1
        &&& (self.current_line as int) < self.line_count()
        &&& self.viewport_top <= self.current_line
        &&& self.valid_word(self.current_line as int, self.word_index as int)
        &&& self.chapter_count >= 1
        &&& (self.current_chapter as int) < self.chapter_count as int
        &&& match self.selection_anchor {
            Some(a) => (a.0 as int) < self.line_count() && self.valid_word(
                a.0 as int,
                a.1 as int,
            ),
            None => true,
        }
    }

    /// The word index after re-validation against the given line.
    pub open spec fn synced_word(self, line: int, w: int) -> int {
        let c = self.wc(line);
        if c == 0 {
            0
        } else if w >= c {
            c - 1
        } else {
            w
        }
    }
}

impl LoadedBook {
    fn line_word_count(&self, line: usize) -> (r: usize)
        requires
            (line as int) < self.line_count(),
        ensures
            r == self.wc(line as int),
    {
        match &self.chapter_content[line] {
            RenderLine::Text(s) => count_words_str(s.as_str()),
            RenderLine::Image { .. } => 0,
        }
    }

    fn sync_word_index(&mut self)
        requires
            (old(self).current_line as int) < old(self).line_count(),
        ensures
            *final(self) == (LoadedBook {
                word_index: old(self).synced_word(
                    old(self).current_line as int,
                    old(self).word_index as int,
                ) as usize,
                ..*old(self)
            }),
    {
        let c = self.line_word_count(self.current_line);
        if self.word_index >= c && c > 0 {
            self.word_index = c - 1;
        } else if c == 0 {
            self.word_index = 0;
        }
        proof {
            assert(*self =~= LoadedBook {
                word_index: old(self).synced_word(
                    old(self).current_line as int,
                    old(self).word_index as int,
                ) as usize,
                ..*old(self)
            });
        }
    }
}

/// The unit after the viewport scrolled down one line: the line leaving the
/// top of the viewport is counted as read, and the cursor is pulled down
/// (and re-validated) if it would fall above the new top.
pub open spec fn scroll_down_spec(b: LoadedBook) -> LoadedBook {
    if b.viewport_top + 1 < b.line_count() {
        let top = b.viewport_top + 1;
        let gained = match b.buffer()[top - 1] {
            LineV::Text(t) => words(t).len() as int,
            LineV::Image { .. } => 0,
        };
        let wr = if b.words_read + gained > usize::MAX {
            usize::MAX as int
        } else {
            b.words_read + gained
        };
        let line = if (b.current_line as int) < top {
            top
        } else {
            b.current_line as int
        };
        let w = b.synced_word(line, b.word_index as int);
        LoadedBook {
            viewport_top: top as usize,
            current_line: line as usize,
            word_index: w as usize,
            words_read: wr as usize,
            ..b
        }
    } else {
        b
    }
}

/// The unit after the viewport scrolled up one line.
pub open spec fn scroll_up_spec(b: LoadedBook) -> LoadedBook {
    if b.viewport_top > 0 {
        LoadedBook { viewport_top: (b.viewport_top - 1) as usize, ..b }
    } else {
        b
    }
}

/// The unit after the cursor moved down one line: clamped at the last line,
/// auto-scrolling the viewport with a two-line margin, the word index
/// re-validated against the new line.
pub open spec fn move_down_spec(b: LoadedBook, height: int) -> LoadedBook {
    if b.current_line + 1 < b.line_count() {
        let line = b.current_line + 1;
        let top = if line >= b.viewport_top + sub0(height, 2) {
            b.viewport_top + 1
        } else {
            b.viewport_top as int
        };
        let w = b.synced_word(line, b.word_index as int);
        LoadedBook {
            current_line: line as usize,
            viewport_top: top as usize,
            word_index: w as usize,
            ..b
        }
    } else {
        b
    }
}

/// The unit after the cursor moved up one line: clamped at the first line,
/// pulling the viewport up with it, the word index re-validated.
pub open spec fn move_up_spec(b: LoadedBook) -> LoadedBook {
    if b.current_line > 0 {
        let line = b.current_line - 1;
        let top = if line < b.viewport_top {
            line
        } else {
            b.viewport_top as int
        };
        let w = b.synced_word(line, b.word_index as int);
        LoadedBook {
            current_line: line as usize,
            viewport_top: top as usize,
            word_index: w as usize,
            ..b
        }
    } else {
        b
    }
}

/// The unit after the cursor moved right one word: past the last word of a
/// line (and from any image row) it advances to the next line at word zero;
/// at the very end of the buffer nothing moves.
pub open spec fn cursor_right_spec(b: LoadedBook, height: int) -> LoadedBook {
    let line = b.current_line as int;
    if b.buffer()[line] is Text && b.word_index + 1 < b.wc(line) {
        LoadedBook { word_index: (b.word_index + 1) as usize, ..b }
    } else if b.current_line + 1 < b.line_count() {
        let nline = b.current_line + 1;
        let top = if nline >= b.viewport_top + sub0(height, 2) {
            b.viewport_top + 1
        } else {
            b.viewport_top as int
        };
        LoadedBook {
            current_line: nline as usize,
            viewport_top: top as usize,
            word_index: 0,
            ..b
        }
    } else {
        b
    }
}

/// The unit after the cursor moved left one word: past word zero (and from
/// any image row) it retreats to the previous line, landing on its last
/// word (word zero if that line has none); at the very start nothing moves.
pub open spec fn cursor_left_spec(b: LoadedBook) -> LoadedBook {
    let line = b.current_line as int;
    if b.buffer()[line] is Text && b.word_index > 0 {
        LoadedBook { word_index: (b.word_index - 1) as usize, ..b }
    } else if b.current_line > 0 {
        let nline = b.current_line - 1;
        let top = if nline < b.viewport_top {
            nline
        } else {
            b.viewport_top as int
        };
        let c = b.wc(nline);
        let w = if c == 0 {
            0
        } else {
            c - 1
        };
        LoadedBook {
            current_line: nline as usize,
            viewport_top: top as usize,
            word_index: w as usize,
            ..b
        }
    } else {
        b
    }
}

impl LoadedBook {
    /// Scrolls the viewport down one line; see [`scroll_down_spec`].
    pub fn scroll_viewport_down(&mut self)
        requires
            old(self).wf(),
        ensures
            final(self).wf(),
            *final(self) == scroll_down_spec(*old(self)),
    {
        let len = self.chapter_content.len();
        if self.viewport_top + 1 < len {
            self.viewport_top = self.viewport_top + 1;
            let gained = match &self.chapter_content[self.viewport_top - 1] {
                RenderLine::Text(s) => count_words_str(s.as_str()),
                RenderLine::Image { .. } => 0,
            };
            self.words_read = self.words_read.saturating_add(gained);
            if self.current_line < self.viewport_top {
                self.current_line = self.viewport_top;
            }
            self.sync_word_index();
            proof {
                assert(*self =~= scroll_down_spec(*old(self)));
            }
        } else {
            proof {
                assert(*self =~= scroll_down_spec(*old(self)));
            }
        }
    }

    /// Scrolls the viewport up one line; see [`scroll_up_spec`].
    pub fn scroll_viewport_up(&mut self)
        requires
            old(self).wf(),
        ensures
            final(self).wf(),
            *final(self) == scroll_up_spec(*old(self)),
    {
        if self.viewport_top > 0 {
            self.viewport_top = self.viewport_top - 1;
        }
        proof {
            assert(*self =~= scroll_up_spec(*old(self)));
        }
    }

    /// Moves the cursor down one line; see [`move_down_spec`].
    pub fn move_cursor_down(&mut self, height: usize)
        requires
            old(self).wf(),
        ensures
            final(self).wf(),
            *final(self) == move_down_spec(*old(self), height as int),
    {
        let len = self.chapter_content.len();
        if self.current_line + 1 < len {
            self.current_line = self.current_line + 1;
            if self.current_line as u128 >= self.viewport_top as u128 + height.saturating_sub(
                2,
            ) as u128 {
                self.viewport_top = self.viewport_top + 1;
            }
            self.sync_word_index();
            proof {
                assert(*self =~= move_down_spec(*old(self), height as int));
            }
        } else {
            proof {
                assert(*self =~= move_down_spec(*old(self), height as int));
            }
        }
    }

    /// Moves the cursor up one line; see [`move_up_spec`].
    pub fn move_cursor_up(&mut self)
        requires
            old(self).wf(),
        ensures
            final(self).wf(),
            *final(self) == move_up_spec(*old(self)),
    {
        if self.current_line > 0 {
            self.current_line = self.current_line - 1;
            if self.current_line < self.viewport_top {
                self.viewport_top = self.current_line;
            }
            self.sync_word_index();
            proof {
                assert(*self =~= move_up_spec(*old(self)));
            }
        } else {
            proof {
                assert(*self =~= move_up_spec(*old(self)));
            }
        }
    }

    /// Moves the cursor right one word; see [`cursor_right_spec`].
    pub fn cursor_right(&mut self, height: usize)
        requires
            old(self).wf(),
        ensures
            final(self).wf(),
            *final(self) == cursor_right_spec(*old(self), height as int),
    {
        let is_text = match &self.chapter_content[self.current_line] {
            RenderLine::Text(_) => true,
            RenderLine::Image { .. } => false,
        };
        let c = self.line_word_count(self.current_line);
        let len = self.chapter_content.len();
        if is_text && self.word_index + 1 < c {
            self.word_index = self.word_index + 1;
            proof {
                assert(*self =~= cursor_right_spec(*old(self), height as int));
            }
        } else if self.current_line + 1 < len {
            self.current_line = self.current_line + 1;
            if self.current_line as u128 >= self.viewport_top as u128 + height.saturating_sub(
                2,
            ) as u128 {
                self.viewport_top = self.viewport_top + 1;
            }
            self.word_index = 0;
            proof {
                assert(*self =~= cursor_right_spec(*old(self), height as int));
            }
        } else {
            proof {
                assert(*self =~= cursor_right_spec(*old(self), height as int));
            }
        }
    }

    /// Moves the cursor left one word; see [`cursor_left_spec`].
    pub fn cursor_left(&mut self)
        requires
            old(self).wf(),
        ensures
            final(self).wf(),
            *final(self) == cursor_left_spec(*old(self)),
    {
        let is_text = match &self.chapter_content[self.current_line] {
            RenderLine::Text(_) => true,
            RenderLine::Image { .. } => false,
        };
        if is_text && self.word_index > 0 {
            self.word_index = self.word_index - 1;
            proof {
                assert(*self =~= cursor_left_spec(*old(self)));
            }
        } else if self.current_line > 0 {
            self.current_line = self.current_line - 1;
            if self.current_line < self.viewport_top {
                self.viewport_top = self.current_line;
            }
            let c = self.line_word_count(self.current_line);
            if c == 0 {
                self.word_index = 0;
            } else {
                self.word_index = c - 1;
            }
            proof {
                assert(*self =~= cursor_left_spec(*old(self)));
            }
        } else {
            proof {
                assert(*self =~= cursor_left_spec(*old(self)));
            }
        }
    }
}

/// The active range: anchor and cursor ordered so the lexicographically
/// earlier (line, word) point comes first; `None` without an anchor.
pub open spec fn selection_range_of(b: LoadedBook) -> Option<(usize, usize, usize, usize)> {
    match b.selection_anchor {
        None => None,
        Some(a) => if a.0 < b.current_line || (a.0 == b.current_line && a.1 <= b.word_index) {
            Some((a.0, a.1, b.current_line, b.word_index))
        } else {
            Some((b.current_line, b.word_index, a.0, a.1))
        },
    }
}

/// The words a selection takes from one line: the whole line in the
/// interior, from `sw` on the start line, up to `ew` (clamped) on the end
/// line; image rows contribute nothing.
pub open spec fn selected_line_words(
    l: LineV,
    is_start: bool,
    sw: int,
    is_end: bool,
    ew: int,
) -> Seq<Seq<char>> {
    match l {
        LineV::Image { .. } => Seq::empty(),
        LineV::Text(t) => {
            let ws = words(t);
            let a = if is_start {
                sw
            } else {
                0
            };
            let b = if is_end {
                if ew < ws.len() - 1 {
                    ew
                } else {
                    ws.len() - 1
                }
            } else {
                ws.len() - 1
            };
            if ws.len() == 0 || a > b {
                Seq::empty()
            } else {
                ws.subrange(a, b + 1)
            }
        },
    }
}

/// The words a selection takes from lines `li..=el` of the buffer.
pub open spec fn selected_range_words(
    buf: Seq<LineV>,
    li: int,
    sl: int,
    sw: int,
    el: int,
    ew: int,
) -> Seq<Seq<char>>
    decreases el - li + 1,
{
    if li > el || li < 0 || li >= buf.len() {
        Seq::empty()
    } else {
        selected_line_words(buf[li], li == sl, sw, li == el, ew) + selected_range_words(
            buf,
            li + 1,
            sl,
            sw,
            el,
            ew,
        )
    }
}

/// The text of the active selection: the selected words of each line in the
/// range, joined by single spaces; empty without a selection.
pub open spec fn selected_text_of(b: LoadedBook) -> Seq<char> {
    match selection_range_of(b) {
        None => Seq::empty(),
        Some(r) => join_words(
            selected_range_words(
                b.buffer(),
                r.0 as int,
                r.0 as int,
                r.1 as int,
                r.2 as int,
                r.3 as int,
            ),
        ),
    }
}

impl LoadedBook {
    /// Anchors a selection at the cursor; only text lines can be anchored.
    pub fn enter_selection(&mut self) -> (entered: bool)
        requires
            old(self).wf(),
        ensures
            final(self).wf(),
            entered == old(self).buffer()[old(self).current_line as int] is Text,
            entered ==> *final(self) == (LoadedBook {
                selection_anchor: Some((old(self).current_line, old(self).word_index)),
                ..*old(self)
            }),
            !entered ==> *final(self) == *old(self),
    {
        match &self.chapter_content[self.current_line] {
            RenderLine::Text(_) => {
                self.selection_anchor = Some((self.current_line, self.word_index));
                true
            },
            RenderLine::Image { .. } => false,
        }
    }

    /// Clears the selection anchor.
    pub fn exit_selection(&mut self)
        requires
            old(self).wf(),
        ensures
            final(self).wf(),
            *final(self) == (LoadedBook { selection_anchor: None, ..*old(self) }),
    {
        self.selection_anchor = None;
    }

    /// The active range, earlier point first; see [`selection_range_of`].
    pub fn get_selection_range(&self) -> (r: Option<(usize, usize, usize, usize)>)
        ensures
            r == selection_range_of(*self),
    {
        match self.selection_anchor {
            None => None,
            Some((al, aw)) => {
                if al < self.current_line || (al == self.current_line && aw <= self.word_index) {
                    Some((al, aw, self.current_line, self.word_index))
                } else {
                    Some((self.current_line, self.word_index, al, aw))
                }
            },
        }
    }

    /// The text of the active selection; see [`selected_text_of`].
    pub fn get_selected_text(&self) -> (r: String)
        requires
            self.wf(),
        ensures
            r@ == selected_text_of(*self),
    {
        let range = self.get_selection_range();
        match range {
            None => String::new(),
            Some((sl, sw, el, ew)) => {
                let mut sel: Vec<String> = Vec::new();
                let mut li: usize = sl;
                let len = self.chapter_content.len();
                proof {
                    assert(el < self.line_count());
                    assert(sl <= el);
                }
                while li <= el
                    invariant
                        self.wf(),
                        sl <= li <= el + 1,
                        el < len,
                        len == self.chapter_content@.len(),
                        selected_range_words(
                            self.buffer(),
                            sl as int,
                            sl as int,
                            sw as int,
                            el as int,
                            ew as int,
                        ) =~~= sel.deep_view() + selected_range_words(
                            self.buffer(),
                            li as int,
                            sl as int,
                            sw as int,
                            el as int,
                            ew as int,
                        ),
                    decreases el + 1 - li,
                {
                    let ghost lw = selected_line_words(
                        self.buffer()[li as int],
                        li == sl,
                        sw as int,
                        li == el,
                        ew as int,
                    );
                    match &self.chapter_content[li] {
                        RenderLine::Text(s) => {
                            let ws = split_words_str(s.as_str());
                            let n = ws.len();
                            proof {
                                assert(ws.deep_view() == words(s@));
                                assert(self.buffer()[li as int] == LineV::Text(s@));
                            }
                            if n > 0 {
                                let a: usize = if li == sl {
                                    sw
                                } else {
                                    0
                                };
                                let b: usize = if li == el {
                                    if ew < n - 1 {
                                        ew
                                    } else {
                                        n - 1
                                    }
                                } else {
                                    n - 1
                                };
                                if a <= b {
                                    let mut wi: usize = a;
                                    let ghost base = sel.deep_view();
                                    while wi <= b
                                        invariant
                                            a <= wi <= b + 1,
                                            b < n == ws@.len(),
                                            ws.deep_view() == words(s@),
                                            sel.deep_view() =~~= base + words(s@).subrange(
                                                a as int,
                                                wi as int,
                                            ),
                                        decreases b + 1 - wi,
                                    {
                                        let w = ws[wi].clone();
                                        proof {
                                            assert(w@ == ws.deep_view()[wi as int]);
                                        }
                                        let ghost prevd = sel.deep_view();
                                        sel.push(w);
                                        wi += 1;
                                        proof {
                                            assert(sel.deep_view() =~~= prevd.push(w@));
                                            assert(sel.deep_view() =~~= base + words(s@).subrange(
                                                a as int,
                                                wi as int,
                                            ));
                                        }
                                    }
                                    proof {
                                        assert(lw =~~= words(s@).subrange(a as int, b + 1));
                                    }
                                } else {
                                    proof {
                                        assert(lw =~~= Seq::<Seq<char>>::empty());
                                    }
                                }
                            } else {
                                proof {
                                    assert(lw =~~= Seq::<Seq<char>>::empty());
                                }
                            }
                        },
                        RenderLine::Image { .. } => {
                            proof {
                                assert(lw =~~= Seq::<Seq<char>>::empty());
                            }
                        },
                    }
                    li += 1;
                }
                join_with_spaces(&sel)
            },
        }
    }
}

/// Entering a unit: a fresh buffer flattened from its content, the cursor
/// at the requested line (clamped into the buffer) at word zero, the
/// viewport at the cursor, no selection, and only this unit's annotations.
pub open spec fn opened_unit(
    id: i32,
    path: Seq<char>,
    chapter: usize,
    chapter_count: usize,
    start_line: usize,
    items: Seq<PageContent>,
    annos: Seq<AnnotationRecord>,
    b: LoadedBook,
) -> bool {
    &&& b.id == id
    &&& b.path@ == path
    &&& b.current_chapter == chapter
    &&& b.chapter_count == chapter_count
    &&& b.buffer() == flattened_buffer(items)
    &&& b.images@ == flat_images(items)
    &&& b.current_line == if (start_line as int) < b.line_count() {
        start_line as int
    } else {
        b.line_count() - 1
    }
    &&& b.viewport_top == b.current_line
    &&& b.word_index == 0
    &&& b.selection_anchor is None
    &&& b.chapter_annotations@ == annos.filter(|a: AnnotationRecord| a.chapter == chapter)
    &&& b.words_read == 0
    &&& b.session_words_logged == 0
}

impl LoadedBook {
    /// Opens one unit of a book, rebuilding buffer and state from scratch.
    pub fn open_unit(
        id: i32,
        path: String,
        chapter: usize,
        chapter_count: usize,
        start_line: usize,
        content: Vec<PageContent>,
        annos: Vec<AnnotationRecord>,
    ) -> (b: LoadedBook)
        requires
            (chapter as int) < chapter_count as int,
        ensures
            b.wf(),
            opened_unit(id, path@, chapter, chapter_count, start_line, content@, annos@, b),
    {
        let ghost items = content@;
        let (lines, images) = flatten_content(content);
        let len = lines.len();
        proof {
            assert(view_lines(lines@).len() >= 1);
            assert(len >= 1);
        }
        let line = if start_line < len {
            start_line
        } else {
            len - 1
        };
        let chapter_annotations = annotations_for_chapter(&annos, chapter);
        let b = LoadedBook {
            id,
            path,
            current_chapter: chapter,
            chapter_count,
            current_line: line,
            viewport_top: line,
            chapter_content: lines,
            images,
            word_index: 0,
            selection_anchor: None,
            chapter_annotations,
            words_read: 0,
            session_words_logged: 0,
        };
        proof {
            assert(b.valid_word(b.current_line as int, 0));
        }
        b
    }

    /// Re-enters this book at the given unit: the buffer is rebuilt from the
    /// given content, the cursor resets to the top, and the annotations of
    /// that unit replace the previous ones. Words read so far are kept.
    pub fn enter_chapter(
        &mut self,
        chapter: usize,
        content: Vec<PageContent>,
        annos: Vec<AnnotationRecord>,
    )
        requires
            old(self).wf(),
            (chapter as int) < old(self).chapter_count as int,
        ensures
            final(self).wf(),
            final(self).current_chapter == chapter,
            final(self).current_line == 0,
            final(self).viewport_top == 0,
            final(self).word_index == 0,
            final(self).selection_anchor is None,
            final(self).buffer() == flattened_buffer(content@),
            final(self).images@ == flat_images(content@),
            final(self).chapter_annotations@ == annos@.filter(
                |a: AnnotationRecord| a.chapter == chapter,
            ),
            final(self).id == old(self).id,
            final(self).path == old(self).path,
            final(self).chapter_count == old(self).chapter_count,
            final(self).words_read == old(self).words_read,
            final(self).session_words_logged == old(self).session_words_logged,
    {
        let (lines, images) = flatten_content(content);
        proof {
            assert(view_lines(lines@).len() >= 1);
        }
        let chapter_annotations = annotations_for_chapter(&annos, chapter);
        self.current_chapter = chapter;
        self.current_line = 0;
        self.viewport_top = 0;
        self.word_index = 0;
        self.selection_anchor = None;
        self.chapter_content = lines;
        self.images = images;
        self.chapter_annotations = chapter_annotations;
        proof {
            assert(self.valid_word(0, 0));
        }
    }

    /// Positions the cursor at the given point, clamped into the buffer,
    /// scrolling the viewport to the cursor line and clearing any selection.
    pub fn position_cursor(&mut self, line: usize, word: usize)
        requires
            old(self).wf(),
        ensures
            final(self).wf(),
            final(self).current_line == if (line as int) < old(self).line_count() {
                line as int
            } else {
                old(self).line_count() - 1
            },
            final(self).viewport_top == final(self).current_line,
            final(self).word_index == final(self).synced_word(
                final(self).current_line as int,
                word as int,
            ),
            final(self).selection_anchor is None,
            *final(self) == (LoadedBook {
                current_line: final(self).current_line,
                viewport_top: final(self).viewport_top,
                word_index: final(self).word_index,
                selection_anchor: None,
                ..*old(self)
            }),
    {
        let len = self.chapter_content.len();
        let target = if line < len {
            line
        } else {
            len - 1
        };
        self.current_line = target;
        self.viewport_top = target;
        self.word_index = word;
        self.selection_anchor = None;
        self.sync_word_index();
    }
}

/// Moving the cursor down one line and then up returns it to its line, for
/// every line that is not the last of the buffer.
pub proof fn lemma_move_down_up_returns_line(b: LoadedBook, height: int)
    requires
        b.wf(),
        b.current_line + 1 < b.line_count(),
    ensures
        move_up_spec(move_down_spec(b, height)).current_line == b.current_line,
{
    assert(b.chapter_content.len() == b.chapter_content@.len());
}

/// The active range is ordered with the earlier point first, independent of
/// which direction the cursor moved from the anchor: swapping anchor and
/// cursor yields the same range.
pub proof fn lemma_active_range_ordered(b: LoadedBook)
    ensures
        match selection_range_of(b) {
            Some(r) => r.0 < r.2 || (r.0 == r.2 && r.1 <= r.3),
            None => b.selection_anchor is None,
        },
{
}

/// Swapping the anchor and the cursor leaves the active range unchanged.
pub proof fn lemma_active_range_direction_independent(b: LoadedBook, c: LoadedBook)
    requires
        b.selection_anchor matches Some(a) && c == (LoadedBook {
            current_line: a.0,
            word_index: a.1,
            selection_anchor: Some((b.current_line, b.word_index)),
            ..b
        }),
    ensures
        selection_range_of(c) == selection_range_of(b),
{
}

/// On a single-line selection `[sw, ew]` of a text line, the selected text
/// is exactly words `sw..=ew` of that line, joined by single spaces.
pub proof fn lemma_selected_text_single_line(b: LoadedBook)
    requires
        b.wf(),
        selection_range_of(b) matches Some(r) && r.0 == r.2,
        b.buffer()[selection_range_of(b)->Some_0.0 as int] is Text,
        line_words(b.buffer()[selection_range_of(b)->Some_0.0 as int]).len() > 0,
    ensures
        selected_text_of(b) == join_words(
            line_words(b.buffer()[selection_range_of(b)->Some_0.0 as int]).subrange(
                selection_range_of(b)->Some_0.1 as int,
                selection_range_of(b)->Some_0.3 + 1 as int,
            ),
        ),
{
    let r = selection_range_of(b)->Some_0;
    let sl = r.0 as int;
    let sw = r.1 as int;
    let ew = r.3 as int;
    let buf = b.buffer();
    let ws = line_words(buf[sl]);
    // both endpoints are valid word indices of this text line
    assert(b.valid_word(sl, sw));
    assert(b.valid_word(sl, ew));
    assert(sw <= ew);
    assert(ws.len() > 0);
    assert(selected_range_words(buf, sl + 1, sl, sw, sl, ew) =~~= Seq::<Seq<char>>::empty());
    assert(selected_line_words(buf[sl], true, sw, true, ew) =~~= ws.subrange(sw, ew + 1));
    assert(selected_range_words(buf, sl, sl, sw, sl, ew) =~~= ws.subrange(sw, ew + 1));
}

} // verus!
