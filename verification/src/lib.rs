//! A screen-reader-style text buffer: grapheme-indexed rows and documents,
//! the symbol-to-speech tokenizer, and the queue that schedules tones and
//! utterances for an audio backend.

pub mod segment;
pub mod row;
pub mod utils;
pub mod editor;
pub mod document;
pub mod sound;
pub mod speech;
pub mod config;

pub use document::Document;
pub use editor::Position;
pub use row::Row;
pub use utils::SearchDirection;
