//! A terminal text editor's core: lines of text, a cursor with a selection, one
//! range-replacement edit primitive, undo and redo, scrolling, and the handling
//! of key, mouse and paste events.
pub mod lines;
pub mod cursor;
pub mod buffer;
pub mod history;
pub mod viewport;
pub mod document;
pub mod consistency;
pub mod clipboard;
pub mod terminal;
pub mod editor;
pub mod properties;
