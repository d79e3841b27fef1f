//! A modal text editor's core: key-sequence matching, the modal key
//! dispatcher, line buffers, window cursor and scrolling, and window layout.
pub mod trie;
pub mod keys;
mod text;
pub mod buffer;
pub mod window;
pub mod screen;
pub mod command;
pub mod state;
