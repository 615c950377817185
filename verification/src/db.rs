//! The record types exchanged with the storage collaborator. The SQL
//! connection itself lives outside the verified core; it hands these plain
//! records in and takes them back.

use vstd::prelude::*;

verus! {

/// A book known to the library, with its reading progress.
#[derive(Clone)]
pub struct BookRecord {
    pub id: i32,
    pub title: String,
    pub author: String,
    pub path: String,
    pub current_chapter: usize,
    pub current_line: usize,
    pub total_chapters: usize,
    pub total_lines: usize,
    pub lines_read: usize,
}

/// A persisted annotation: a kind-tagged word range within one unit of a
/// book, with a content snapshot and an optional note.
#[derive(Clone)]
pub struct AnnotationRecord {
    pub id: i32,
    pub chapter: usize,
    pub start_line: usize,
    pub start_word: usize,
    pub end_line: usize,
    pub end_word: usize,
    pub content: String,
    pub note: Option<String>,
    pub kind: String,
}

/// A word the reader looked up, with its stored definition.
pub struct VocabRecord {
    pub word: String,
    pub definition: String,
    pub lookup_count: i32,
}

} // verus!
