//! From the text that was typed to the expression that is drawn.

use vstd::prelude::*;
use vstd::string::StringExecFns;
use crate::emit_shaders::{ast_to_shader, emit};
use crate::error::message_text;
use crate::expr::Tree;
use crate::grammar::formula;
use crate::line::one_balanced_line;
use crate::parser::parse;
use crate::scan::{table, Scan};

verus! {

/// The message that stands while the text is a formula.
pub const DEFAULT_MSG: &'static str =
    "Type an expression of the complex variable z, then hit Enter";

/// Reads the formula `text`, whose numbers are those of `scans`, and says
/// what is to be drawn and what is to be shown.
///
/// Where the text is a formula, `shader_expr` becomes its expression and
/// `parse_msg` the standing message. Where it is not, `shader_expr` becomes
/// the expression of the empty formula and `parse_msg` the message of the
/// error. Either way `shader_expr` is one line of balanced parentheses.
pub fn parse_input(
    text: &String,
    scans: &Vec<Scan>,
    shader_expr: &mut String,
    parse_msg: &mut Option<String>,
)
    ensures
        match formula(text@, table(scans@)) {
            Ok(tree) => {
                &&& final(shader_expr)@ == emit(tree)
                &&& *final(parse_msg) matches Some(message) && message@ == DEFAULT_MSG@
            },
            Err(error) => {
                &&& final(shader_expr)@ == emit(Tree::Empty)
                &&& *final(parse_msg) matches Some(message) && message@ == message_text(
                    error,
                    text@,
                )
            },
        },
        one_balanced_line(final(shader_expr)@),
{
    match parse(text.as_str(), scans) {
        Ok(parse_output) => {
            *shader_expr = ast_to_shader(parse_output);
            *parse_msg = Some(String::from_str(DEFAULT_MSG));
        },
        Err(err) => {
            *shader_expr = ast_to_shader(crate::expr::Expr::Empty);
            *parse_msg = Some(err.message(text.as_str()));
        },
    }
}

} // verus!
