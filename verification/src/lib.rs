//! A terminal document reader's core: document content extraction,
//! line/word-addressable layout, cursor and selection navigation, and
//! annotation anchoring.
//!
//! The crate turns a document unit (an EPUB chapter or a PDF page) into a
//! flat render buffer of addressable lines, and verifies the cursor,
//! selection and annotation arithmetic that operates over that buffer.
//! Storage, terminal painting and network lookups live outside this crate;
//! they hand plain values in and take plain values back.

pub mod annotations;
pub mod app;
pub mod config;
pub mod db;
pub mod layout;
pub mod markup;
pub mod pages;
pub mod reader;
pub mod text;
