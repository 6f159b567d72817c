//! Core of a text editor: a mutable document with undo/redo history,
//! offset/position conversion, incremental search, cursor and selection
//! tracking, and the small pieces of editor state around them.

pub mod buffer;
pub mod config;
pub mod cursor;
pub mod file;
pub mod file_tree;
pub mod input;
pub mod rope;
pub mod search;
pub mod syntax;
pub mod tabs;
pub mod strutil;
pub mod text;
pub mod ui;
