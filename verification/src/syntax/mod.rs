//! What a file is, and the line-at-a-time lexers that color it.
//!
//! A lexer takes the state the line before ended in and hands back the state
//! this one ends in, so an edit costs one line instead of a file. It never
//! refuses a line: what it has no opinion about comes out as a plain run. The
//! tokens of a line cover it in order, without gaps and without overlaps, and
//! every boundary is a character boundary.
pub mod language;
pub mod lexer;
pub mod reading;
pub mod scan;
pub mod token;
