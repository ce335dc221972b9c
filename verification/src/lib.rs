//! Error reports of a compiler: what they say, how they are laid out as a
//! document, and how that document is written for a plain console or for a
//! color terminal.

pub mod compose;
pub mod doc;
pub mod laws;
pub mod render;
pub mod report;
pub mod strings;
pub mod style;
pub mod symbol;
pub mod syntax;
pub mod tables;
pub mod text;
pub mod uncolored;
