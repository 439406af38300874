//! A line editor in the tradition of `ed`: a command grammar, address
//! resolution against the current buffer, and a buffer whose marks stay
//! consistent under every edit.

pub mod buffer;
pub mod grammar;
pub mod parser;
pub mod pattern;
pub mod error;
pub mod editor;
pub mod resolve;
pub mod text;
