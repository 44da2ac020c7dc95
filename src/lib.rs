//! A small line editor's core: grapheme-indexed lines, a document of lines
//! with cross-line edits, and the cursor and viewport rules of the editor.
pub mod document;
pub mod editor;
pub mod row;
pub mod screen;
pub mod text;

pub use document::Document;
pub use editor::{Action, Editor, Key, Position, ScreenLine};
pub use row::Row;
