//! A small modal (vi-style) text editor core: a line buffer, a cursor that
//! moves over it in character units, a key-sequence parser for normal mode,
//! word motions, and the scrolling arithmetic of the view.

pub mod pos;
pub mod buffer;
pub mod walker;
pub mod key;
pub mod input;
pub mod words;
pub mod cursor;
pub mod view;
pub mod editor;
