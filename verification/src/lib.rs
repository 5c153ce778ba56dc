//! Core of a modal terminal text editor: the line-based document model, the
//! cursor with its clamping rules, the pure edit operations, the modal key
//! dispatch, and the projection of document and cursor into display rows.
//!
//! Terminal setup, event delivery, rendering and file access live outside
//! this library; it works purely on in-memory values.

pub mod cursor;
pub mod document;
pub mod edit;
pub mod session;
pub mod view;

pub use cursor::keep_pos;
pub use document::arrayToStr;
pub use document::strToArray;
pub use document::Document;
