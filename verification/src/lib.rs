//! Formulas in one complex variable `z`, read from text and written out as
//! expressions of a shading language.
//!
//! [`parser::parse`] reads a text as a formula, [`emit_shaders::ast_to_shader`]
//! writes a formula out, and [`input::parse_input`] does both and says what
//! to show where the text is no formula. What a text means is laid down in
//! [`grammar`], what is written out in [`emit_shaders::emit`].
//!
//! The library does no floating-point work of its own. Wherever a number may
//! stand in a formula, the caller says what number stands there, see
//! [`scan::Scan`]; everything else, from the grammar to the emitted text, is
//! decided here.

pub mod blanks;
pub mod bounds;
pub mod emit_shaders;
pub mod error;
pub mod expr;
pub mod grammar;
pub mod input;
pub mod line;
pub mod parser;
pub mod scan;
pub mod text;
