//! The grammar of formulas, as functions on a text and a position in it.
//!
//! ```text
//! expression := term (('+' | '-') term)*        from left to right
//! term       := factor (('*' | '/') factor)*    from left to right
//! factor     := unary ('^' factor)?             from right to left
//! unary      := ('-' | '+')? atom
//! atom       := literal | 'z' | '(' expression ')' | 'log' '(' expression ')'
//! literal    := number 'i' | 'i' | number
//! ```
//!
//! Blanks, which are spaces and tabs, may stand before every token and at the
//! end of the text. Of two alternatives the first that fits is taken.
//!
//! `number` is no rule of its own here. A number begins with a digit or a
//! point, so that a sign is never part of it and no word is a number; how
//! long it is and what it is worth is what the table of scans says, which
//! comes with the text. Its value is finite, and its text is a decimal with
//! one digit after the point. A number that breaks off inside its exponent
//! ends the reading at once.

use vstd::prelude::*;
use crate::error::{message_text, Cause, ParseError};
use crate::expr::{is_digit, Name, NumberModel, Tree};
use crate::scan::{table, Scan, ScanModel};

verus! {

/// What reading one part of a formula at a position gives.
pub enum Step {
    /// The part stands there: its tree, and how many characters it takes,
    /// counted from the position at which the reading began.
    Done(Tree, nat),
    /// The part does not stand there.
    Miss,
    /// A number breaks off at this position of the text.
    Halt(int),
}

/// Whether `c` is a blank: a space or a tab.
pub open spec fn is_blank(c: char) -> bool {
    c == ' ' || c == '\t'
}

/// Whether the character `c` stands at position `p` of `s`.
pub open spec fn holds(s: Seq<char>, p: int, c: char) -> bool {
    0 <= p < s.len() && s[p] == c
}

/// How many characters of `s` stand at or behind position `p`.
pub open spec fn left(s: Seq<char>, p: int) -> nat {
    if p <= s.len() {
        (s.len() - p) as nat
    } else {
        0
    }
}

/// How many blanks stand in a row at position `p` of `s`.
pub open spec fn blanks(s: Seq<char>, p: int) -> nat
    decreases left(s, p),
{
    if 0 <= p < s.len() && is_blank(s[p]) {
        1 + blanks(s, p + 1)
    } else {
        0
    }
}

/// The coefficient of a bare `i`: the number one.
pub open spec fn one() -> NumberModel {
    NumberModel { bits: 0x3f80_0000, text: seq!['1', '.', '0'] }
}

/// What the table of scans holds for position `q`: its entry, or nothing
/// where it has none.
pub open spec fn entry(scans: Seq<ScanModel>, q: int) -> ScanModel {
    if 0 <= q < scans.len() {
        scans[q]
    } else {
        ScanModel::Nothing
    }
}

/// Whether a number can begin at position `q` of `s`: a digit or a point
/// stands there.
pub open spec fn begins_number(s: Seq<char>, q: int) -> bool {
    0 <= q < s.len() && (is_digit(s[q]) || s[q] == '.')
}

/// The number that the scans give at position `q` of `s`, with its length:
/// a digit or a point stands at `q`, the entry for `q` is a valid number, and
/// the number has at least one character and ends within `s`.
pub open spec fn number_at(s: Seq<char>, scans: Seq<ScanModel>, q: int) -> Option<
    (nat, NumberModel),
> {
    match entry(scans, q) {
        ScanModel::Number { length, number } => if begins_number(s, q) && 0 < length && q
            + length <= s.len() && number.valid() {
            Some((length, number))
        } else {
            None
        },
        _ => None,
    }
}

/// Whether a number begins at position `q` of `s` and breaks off: a digit
/// or a point stands at `q`, and the entry for `q` says so.
pub open spec fn broken_at(s: Seq<char>, scans: Seq<ScanModel>, q: int) -> bool {
    begins_number(s, q) && entry(scans, q) is Broken
}

/// `literal := number 'i' | 'i' | number`, read at position `q`, where no
/// blank is skipped.
pub open spec fn literal(s: Seq<char>, scans: Seq<ScanModel>, q: int) -> Step {
    if broken_at(s, scans, q) {
        Step::Halt(q)
    } else {
        match number_at(s, scans, q) {
            Some((length, number)) => if holds(s, q + length, 'i') {
                Step::Done(Tree::Imaginary(number), length + 1)
            } else if holds(s, q, 'i') {
                Step::Done(Tree::Imaginary(one()), 1)
            } else {
                Step::Done(Tree::Real(number), length)
            },
            None => if holds(s, q, 'i') {
                Step::Done(Tree::Imaginary(one()), 1)
            } else {
                Step::Miss
            },
        }
    }
}

/// Whether the word `log` stands at position `q` of `s`.
pub open spec fn spells_log(s: Seq<char>, q: int) -> bool {
    holds(s, q, 'l') && holds(s, q + 1, 'o') && holds(s, q + 2, 'g')
}

/// What becomes of an expression read behind an opening parenthesis: the
/// closing one must follow it. `p` is where the reading of the whole began,
/// `from` where the expression began.
pub open spec fn enclosed(s: Seq<char>, p: int, from: int, inner: Step) -> Step {
    match inner {
        Step::Done(tree, n) => {
            let close = from + n + blanks(s, from + n);
            if holds(s, close, ')') {
                Step::Done(tree, (close + 1 - p) as nat)
            } else {
                Step::Miss
            }
        },
        other => other,
    }
}

/// The step that applies `name` to the tree of `operand`.
pub open spec fn applied(name: Name, operand: Step) -> Step {
    match operand {
        Step::Done(tree, n) => Step::Done(Tree::Func(name, Box::new(tree)), n),
        other => other,
    }
}

/// The step `rest`, which began at `from`, counted from `p` instead.
pub open spec fn counted_from(p: int, from: int, rest: Step) -> Step {
    match rest {
        Step::Done(tree, n) => Step::Done(tree, (from + n - p) as nat),
        other => other,
    }
}

/// `atom := literal | 'z' | '(' expression ')' | 'log' '(' expression ')'`
#[verifier::opaque]
pub open spec fn atom(s: Seq<char>, scans: Seq<ScanModel>, p: int) -> Step
    decreases left(s, p), 0nat,
{
    let q = p + blanks(s, p);
    match literal(s, scans, q) {
        Step::Done(tree, n) => Step::Done(tree, blanks(s, p) + n),
        Step::Halt(at) => Step::Halt(at),
        Step::Miss => if holds(s, q, 'z') {
            Step::Done(Tree::VarZ, blanks(s, p) + 1)
        } else if holds(s, q, '(') {
            enclosed(s, p, q + 1, expression(s, scans, q + 1))
        } else if spells_log(s, q) {
            let open = q + 3 + blanks(s, q + 3);
            if holds(s, open, '(') {
                applied(Name::Log, enclosed(s, p, open + 1, expression(s, scans, open + 1)))
            } else {
                Step::Miss
            }
        } else {
            Step::Miss
        },
    }
}

/// `unary := ('-' | '+')? atom`
#[verifier::opaque]
pub open spec fn unary(s: Seq<char>, scans: Seq<ScanModel>, p: int) -> Step
    decreases left(s, p), 1nat,
{
    let q = p + blanks(s, p);
    if holds(s, q, '-') {
        applied(Name::Neg, counted_from(p, q + 1, atom(s, scans, q + 1)))
    } else if holds(s, q, '+') {
        applied(Name::Pos, counted_from(p, q + 1, atom(s, scans, q + 1)))
    } else {
        atom(s, scans, p)
    }
}

/// `factor := unary ('^' factor)?`
#[verifier::opaque]
pub open spec fn factor(s: Seq<char>, scans: Seq<ScanModel>, p: int) -> Step
    decreases left(s, p), 2nat,
{
    match unary(s, scans, p) {
        Step::Done(base, n) => {
            let q = p + n + blanks(s, p + n);
            if holds(s, q, '^') {
                match factor(s, scans, q + 1) {
                    Step::Done(exponent, m) => Step::Done(
                        Tree::Binary('^', Box::new(base), Box::new(exponent)),
                        (q + 1 + m - p) as nat,
                    ),
                    Step::Miss => Step::Done(base, n),
                    Step::Halt(at) => Step::Halt(at),
                }
            } else {
                Step::Done(base, n)
            }
        },
        other => other,
    }
}

/// `(('*' | '/') factor)*` behind the tree `so_far`, read at position `p`.
#[verifier::opaque]
pub open spec fn more_factors(s: Seq<char>, scans: Seq<ScanModel>, p: int, so_far: Tree) -> Step
    decreases left(s, p), 3nat,
{
    let q = p + blanks(s, p);
    if holds(s, q, '*') || holds(s, q, '/') {
        match factor(s, scans, q + 1) {
            Step::Done(right, m) => counted_from(
                p,
                q + 1 + m,
                more_factors(
                    s,
                    scans,
                    q + 1 + m,
                    Tree::Binary(s[q], Box::new(so_far), Box::new(right)),
                ),
            ),
            Step::Miss => Step::Done(so_far, 0),
            Step::Halt(at) => Step::Halt(at),
        }
    } else {
        Step::Done(so_far, 0)
    }
}

/// `term := factor (('*' | '/') factor)*`
#[verifier::opaque]
pub open spec fn term(s: Seq<char>, scans: Seq<ScanModel>, p: int) -> Step
    decreases left(s, p), 4nat,
{
    match factor(s, scans, p) {
        Step::Done(first, n) => counted_from(p, p + n, more_factors(s, scans, p + n, first)),
        other => other,
    }
}

/// `(('+' | '-') term)*` behind the tree `so_far`, read at position `p`.
#[verifier::opaque]
pub open spec fn more_terms(s: Seq<char>, scans: Seq<ScanModel>, p: int, so_far: Tree) -> Step
    decreases left(s, p), 5nat,
{
    let q = p + blanks(s, p);
    if holds(s, q, '+') || holds(s, q, '-') {
        match term(s, scans, q + 1) {
            Step::Done(right, m) => counted_from(
                p,
                q + 1 + m,
                more_terms(
                    s,
                    scans,
                    q + 1 + m,
                    Tree::Binary(s[q], Box::new(so_far), Box::new(right)),
                ),
            ),
            Step::Miss => Step::Done(so_far, 0),
            Step::Halt(at) => Step::Halt(at),
        }
    } else {
        Step::Done(so_far, 0)
    }
}

/// `expression := term (('+' | '-') term)*`
#[verifier::opaque]
pub open spec fn expression(s: Seq<char>, scans: Seq<ScanModel>, p: int) -> Step
    decreases left(s, p), 6nat,
{
    match term(s, scans, p) {
        Step::Done(first, n) => counted_from(p, p + n, more_terms(s, scans, p + n, first)),
        other => other,
    }
}

/// The error of cause `cause` at position `at`.
pub open spec fn error_at(at: int, cause: Cause) -> ParseError {
    ParseError { position: at as usize, cause }
}

/// What reading the whole of `s` gives: the tree of the expression that
/// fills it, [`Tree::Empty`] where it holds nothing but blanks, and
/// otherwise the error.
///
/// The error stands at the first character, blanks aside, behind the longest
/// expression that the text begins with, or where a number breaks off.
pub open spec fn formula(s: Seq<char>, scans: Seq<ScanModel>) -> Result<Tree, ParseError> {
    match expression(s, scans, 0) {
        Step::Done(tree, n) => {
            let end = n + blanks(s, n as int);
            if end == s.len() {
                Ok(tree)
            } else {
                Err(error_at(end as int, Cause::Unexpected))
            }
        },
        Step::Miss => {
            let end = blanks(s, 0);
            if end == s.len() {
                Ok(Tree::Empty)
            } else {
                Err(error_at(end as int, Cause::Unexpected))
            }
        },
        Step::Halt(at) => Err(error_at(at, Cause::BrokenNumber)),
    }
}

/// Reading is a function of the characters of the text and of what the
/// scans hold: the same text, read again with scans that hold the same, gives
/// the same tree, or the same error at the same position with the same
/// message.
pub proof fn lemma_reading_repeats(
    first: Seq<char>,
    again: Seq<char>,
    first_scans: Seq<Scan>,
    again_scans: Seq<Scan>,
)
    requires
        first == again,
        first_scans.len() == again_scans.len(),
        forall|q: int| 0 <= q < first_scans.len() ==> first_scans[q]@ == again_scans[q]@,
    ensures
        formula(first, table(first_scans)) == formula(again, table(again_scans)),
        formula(first, table(first_scans)) matches Err(error) ==> formula(
            again,
            table(again_scans),
        ) matches Err(same) && same.position == error.position && same.cause == error.cause
            && message_text(same, again) == message_text(error, first),
{
    assert(table(first_scans) =~= table(again_scans));
}

} // verus!
