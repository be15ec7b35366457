//! A kernel text buffer of fixed-width code points, and the debug scheme
//! that hands console commands to its readers.
pub mod debug;
pub mod text;
