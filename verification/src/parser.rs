//! Reading a formula from a text.

use vstd::prelude::*;
use vstd::string::StringExecFns;
use crate::bounds::lemma_formula_within;
use crate::error::{Cause, ParseError};
pub use crate::expr::{Expr, Name, Number};
use crate::grammar::{
    applied, atom, blanks, counted_from, enclosed, formula, holds, left, literal, more_factors,
    more_terms, number_at, one, Step,
};
use crate::scan::{table, Scan};
use crate::text::characters;

verus! {

/// What reading one part of a formula gives, as the reader holds it.
pub enum Parsed {
    /// The part stands there: its tree, and the position behind it.
    Done(Expr, usize),
    /// The part does not stand there.
    Miss,
    /// A number breaks off at this position.
    Halt(usize),
}

impl Parsed {
    /// Whether this is the step `step` of the grammar, for a reading of
    /// `len` characters that began at `p`: the same outcome, the same tree,
    /// and the position behind the part where the step says it ends.
    pub open spec fn agrees(self, p: int, len: int, step: Step) -> bool {
        match step {
            Step::Done(tree, n) => self matches Parsed::Done(expr, end) && expr@ == tree && end == p
                + n && end <= len,
            Step::Miss => self is Miss,
            Step::Halt(at) => self matches Parsed::Halt(broken) && broken == at,
        }
    }
}

/// The position of the first character at or behind `p` that is no blank.
pub fn skip_blanks(chars: &Vec<char>, p: usize) -> (q: usize)
    requires
        p <= chars.len(),
    ensures
        q == p + blanks(chars@, p as int),
        q <= chars.len(),
{
    let mut q: usize = p;
    while q < chars.len() && (chars[q] == ' ' || chars[q] == '\t')
        invariant
            p <= q <= chars.len(),
            q + blanks(chars@, q as int) == p + blanks(chars@, p as int),
        decreases chars.len() - q,
    {
        q = q + 1;
    }
    q
}

/// Whether the character `c` stands at position `p`.
pub fn stands_at(chars: &Vec<char>, p: usize, c: char) -> (found: bool)
    ensures
        found == holds(chars@, p as int, c),
{
    p < chars.len() && chars[p] == c
}

/// The coefficient of a bare `i`.
pub fn unit() -> (number: Number)
    ensures
        number@ == one(),
{
    let text = String::from_str("1.0");
    proof {
        reveal_strlit("1.0");
        assert(text@ =~= seq!['1', '.', '0']);
    }
    Number { bits: 0x3f80_0000, text }
}

/// Reads a literal at position `q`: a number with or without an `i` behind
/// it, or a bare `i`. A number is taken from the scans only where a digit or
/// a point stands at `q` and the number is valid.
pub fn number(chars: &Vec<char>, scans: &Vec<Scan>, q: usize) -> (r: Parsed)
    requires
        q <= chars.len(),
    ensures
        r.agrees(q as int, chars.len() as int, literal(chars@, table(scans@), q as int)),
{
    let mut found: Option<(usize, Number)> = None;
    if q < chars.len() && q < scans.len() && (('0' <= chars[q] && chars[q] <= '9') || chars[q]
        == '.') {
        match &scans[q] {
            Scan::Broken => {
                return Parsed::Halt(q);
            },
            Scan::Number { length, number } => {
                if 0 < *length && *length <= chars.len() - q && number.is_valid() {
                    found = Some(
                        (*length, Number { bits: number.bits, text: number.text.clone() }),
                    );
                }
            },
            Scan::Nothing => {},
        }
    }
    match found {
        Some((length, value)) => {
            assert(number_at(chars@, table(scans@), q as int) == Some((length as nat, value@)));
            if stands_at(chars, q + length, 'i') {
                Parsed::Done(Expr::Imaginary(value), q + length + 1)
            } else if stands_at(chars, q, 'i') {
                Parsed::Done(Expr::Imaginary(unit()), q + 1)
            } else {
                Parsed::Done(Expr::Real(value), q + length)
            }
        },
        None => {
            assert(number_at(chars@, table(scans@), q as int) is None);
            if stands_at(chars, q, 'i') {
                Parsed::Done(Expr::Imaginary(unit()), q + 1)
            } else {
                Parsed::Miss
            }
        },
    }
}

/// Reads the closing parenthesis behind an expression that was read from
/// `from` on, for a reading that began at `p`.
fn close(chars: &Vec<char>, p: usize, from: usize, inner: Parsed, Ghost(step): Ghost<Step>) -> (r:
    Parsed)
    requires
        p <= from <= chars.len(),
        inner.agrees(from as int, chars.len() as int, step),
    ensures
        r.agrees(p as int, chars.len() as int, enclosed(chars@, p as int, from as int, step)),
{
    match inner {
        Parsed::Done(expr, end) => {
            let at = skip_blanks(chars, end);
            if stands_at(chars, at, ')') {
                Parsed::Done(expr, at + 1)
            } else {
                Parsed::Miss
            }
        },
        Parsed::Miss => Parsed::Miss,
        Parsed::Halt(at) => Parsed::Halt(at),
    }
}

/// Applies `name` to what was read.
fn apply(
    name: Name,
    operand: Parsed,
    Ghost(p): Ghost<int>,
    Ghost(len): Ghost<int>,
    Ghost(step): Ghost<Step>,
) -> (r: Parsed)
    requires
        operand.agrees(p, len, step),
    ensures
        r.agrees(p, len, applied(name, step)),
{
    match operand {
        Parsed::Done(expr, end) => Parsed::Done(Expr::Func(name, Box::new(expr)), end),
        Parsed::Miss => Parsed::Miss,
        Parsed::Halt(at) => Parsed::Halt(at),
    }
}

/// Reads an atom at position `p`: a literal, the variable, an expression in
/// parentheses, or a call of `log`.
pub fn atomic_or_recurse(chars: &Vec<char>, scans: &Vec<Scan>, p: usize) -> (r: Parsed)
    requires
        p <= chars.len(),
    ensures
        r.agrees(p as int, chars.len() as int, atom(chars@, table(scans@), p as int)),
    decreases left(chars@, p as int), 0nat,
{
    proof {
        reveal(crate::grammar::atom);
        reveal(crate::grammar::expression);
    }
    let q = skip_blanks(chars, p);
    match number(chars, scans, q) {
        Parsed::Done(expr, end) => Parsed::Done(expr, end),
        Parsed::Halt(at) => Parsed::Halt(at),
        Parsed::Miss => {
            if stands_at(chars, q, 'z') {
                Parsed::Done(Expr::VarZ, q + 1)
            } else if stands_at(chars, q, '(') {
                let inner = expression(chars, scans, q + 1);
                close(
                    chars,
                    p,
                    q + 1,
                    inner,
                    Ghost(crate::grammar::expression(chars@, table(scans@), q + 1)),
                )
            } else if stands_at(chars, q, 'l') && stands_at(chars, q + 1, 'o') && stands_at(
                chars,
                q + 2,
                'g',
            ) {
                let open = skip_blanks(chars, q + 3);
                if stands_at(chars, open, '(') {
                    let ghost within = crate::grammar::expression(chars@, table(scans@), open + 1);
                    let inner = expression(chars, scans, open + 1);
                    apply(
                        Name::Log,
                        close(chars, p, open + 1, inner, Ghost(within)),
                        Ghost(p as int),
                        Ghost(chars.len() as int),
                        Ghost(enclosed(chars@, p as int, open + 1, within)),
                    )
                } else {
                    Parsed::Miss
                }
            } else {
                Parsed::Miss
            }
        },
    }
}

/// Reads a unary at position `p`: an atom, with or without a sign before it.
pub fn unary(chars: &Vec<char>, scans: &Vec<Scan>, p: usize) -> (r: Parsed)
    requires
        p <= chars.len(),
    ensures
        r.agrees(
            p as int,
            chars.len() as int,
            crate::grammar::unary(chars@, table(scans@), p as int),
        ),
    decreases left(chars@, p as int), 1nat,
{
    proof {
        reveal(crate::grammar::unary);
        reveal(crate::grammar::atom);
    }
    let q = skip_blanks(chars, p);
    if stands_at(chars, q, '-') {
        apply(
            Name::Neg,
            atomic_or_recurse(chars, scans, q + 1),
            Ghost(p as int),
            Ghost(chars.len() as int),
            Ghost(counted_from(p as int, q + 1, atom(chars@, table(scans@), q + 1))),
        )
    } else if stands_at(chars, q, '+') {
        apply(
            Name::Pos,
            atomic_or_recurse(chars, scans, q + 1),
            Ghost(p as int),
            Ghost(chars.len() as int),
            Ghost(counted_from(p as int, q + 1, atom(chars@, table(scans@), q + 1))),
        )
    } else {
        atomic_or_recurse(chars, scans, p)
    }
}

/// Reads a factor at position `p`: a unary, with or without an exponent
/// behind it, which is a factor in turn.
pub fn factor(chars: &Vec<char>, scans: &Vec<Scan>, p: usize) -> (r: Parsed)
    requires
        p <= chars.len(),
    ensures
        r.agrees(
            p as int,
            chars.len() as int,
            crate::grammar::factor(chars@, table(scans@), p as int),
        ),
    decreases left(chars@, p as int), 2nat,
{
    proof {
        reveal(crate::grammar::factor);
        reveal(crate::grammar::unary);
    }
    match unary(chars, scans, p) {
        Parsed::Done(base, end) => {
            let q = skip_blanks(chars, end);
            if stands_at(chars, q, '^') {
                match factor(chars, scans, q + 1) {
                    Parsed::Done(exponent, behind) => Parsed::Done(
                        Expr::Binary('^', Box::new(base), Box::new(exponent)),
                        behind,
                    ),
                    Parsed::Miss => Parsed::Done(base, end),
                    Parsed::Halt(at) => Parsed::Halt(at),
                }
            } else {
                Parsed::Done(base, end)
            }
        },
        Parsed::Miss => Parsed::Miss,
        Parsed::Halt(at) => Parsed::Halt(at),
    }
}

/// Reads what follows a factor at position `p`: factors with `*` or `/`
/// before each, joined to `first` from left to right.
pub fn more_factors_from(chars: &Vec<char>, scans: &Vec<Scan>, p: usize, first: Expr) -> (r:
    Parsed)
    requires
        p <= chars.len(),
    ensures
        r.agrees(
            p as int,
            chars.len() as int,
            more_factors(chars@, table(scans@), p as int, first@),
        ),
    decreases left(chars@, p as int), 3nat,
{
    let ghost whole = more_factors(chars@, table(scans@), p as int, first@);
    let mut so_far = first;
    let mut at = p;
    loop
        invariant
            p <= at <= chars.len(),
            whole == more_factors(chars@, table(scans@), p as int, first@),
            whole == counted_from(
                p as int,
                at as int,
                more_factors(chars@, table(scans@), at as int, so_far@),
            ),
        decreases chars.len() - at,
    {
        proof {
            reveal(crate::grammar::more_factors);
            reveal(crate::grammar::factor);
        }
        let q = skip_blanks(chars, at);
        if !(stands_at(chars, q, '*') || stands_at(chars, q, '/')) {
            return Parsed::Done(so_far, at);
        }
        match factor(chars, scans, q + 1) {
            Parsed::Done(right, behind) => {
                so_far = Expr::Binary(chars[q], Box::new(so_far), Box::new(right));
                at = behind;
            },
            Parsed::Miss => {
                return Parsed::Done(so_far, at);
            },
            Parsed::Halt(broken) => {
                return Parsed::Halt(broken);
            },
        }
    }
}

/// Reads a term at position `p`: factors with `*` or `/` between them,
/// joined from left to right.
pub fn term(chars: &Vec<char>, scans: &Vec<Scan>, p: usize) -> (r: Parsed)
    requires
        p <= chars.len(),
    ensures
        r.agrees(
            p as int,
            chars.len() as int,
            crate::grammar::term(chars@, table(scans@), p as int),
        ),
    decreases left(chars@, p as int), 4nat,
{
    proof {
        reveal(crate::grammar::term);
        reveal(crate::grammar::factor);
        reveal(crate::grammar::more_factors);
    }
    match factor(chars, scans, p) {
        Parsed::Done(first, end) => more_factors_from(chars, scans, end, first),
        Parsed::Miss => Parsed::Miss,
        Parsed::Halt(at) => Parsed::Halt(at),
    }
}

/// Reads what follows a term at position `p`: terms with `+` or `-` before
/// each, joined to `first` from left to right.
pub fn more_terms_from(chars: &Vec<char>, scans: &Vec<Scan>, p: usize, first: Expr) -> (r:
    Parsed)
    requires
        p <= chars.len(),
    ensures
        r.agrees(p as int, chars.len() as int, more_terms(chars@, table(scans@), p as int, first@)),
    decreases left(chars@, p as int), 5nat,
{
    let ghost whole = more_terms(chars@, table(scans@), p as int, first@);
    let mut so_far = first;
    let mut at = p;
    loop
        invariant
            p <= at <= chars.len(),
            whole == more_terms(chars@, table(scans@), p as int, first@),
            whole == counted_from(
                p as int,
                at as int,
                more_terms(chars@, table(scans@), at as int, so_far@),
            ),
        decreases chars.len() - at,
    {
        proof {
            reveal(crate::grammar::more_terms);
            reveal(crate::grammar::term);
        }
        let q = skip_blanks(chars, at);
        if !(stands_at(chars, q, '+') || stands_at(chars, q, '-')) {
            return Parsed::Done(so_far, at);
        }
        match term(chars, scans, q + 1) {
            Parsed::Done(right, behind) => {
                so_far = Expr::Binary(chars[q], Box::new(so_far), Box::new(right));
                at = behind;
            },
            Parsed::Miss => {
                return Parsed::Done(so_far, at);
            },
            Parsed::Halt(broken) => {
                return Parsed::Halt(broken);
            },
        }
    }
}

/// Reads an expression at position `p`: terms with `+` or `-` between them,
/// joined from left to right.
pub fn expression(chars: &Vec<char>, scans: &Vec<Scan>, p: usize) -> (r: Parsed)
    requires
        p <= chars.len(),
    ensures
        r.agrees(
            p as int,
            chars.len() as int,
            crate::grammar::expression(chars@, table(scans@), p as int),
        ),
    decreases left(chars@, p as int), 6nat,
{
    proof {
        reveal(crate::grammar::expression);
        reveal(crate::grammar::term);
        reveal(crate::grammar::more_terms);
    }
    match term(chars, scans, p) {
        Parsed::Done(first, end) => more_terms_from(chars, scans, end, first),
        Parsed::Miss => Parsed::Miss,
        Parsed::Halt(at) => Parsed::Halt(at),
    }
}

/// Reads the formula that fills the text `i`, whose numbers are those of
/// `scans`.
///
/// The result is the tree of [`formula`]: blanks may stand around every
/// token, a text of blanks only gives [`Expr::Empty`], and a text that is no
/// formula gives the error with its position, which is that of a character
/// of the text. A number is read only where a digit or a point stands, so
/// that no word and no sign is part of one. A tree that comes back is well
/// formed, so that each of its numbers is finite, not negative, and has a
/// decimal text with one digit after the point; and it is no higher than the
/// text is long.
pub fn parse(i: &str, scans: &Vec<Scan>) -> (r: Result<Expr, ParseError>)
    ensures
        match formula(i@, table(scans@)) {
            Ok(tree) => r matches Ok(expr) && expr@ == tree,
            Err(error) => r == Err::<Expr, ParseError>(error),
        },
        r matches Ok(expr) ==> {
            &&& expr@.well_formed()
            &&& expr@.height() <= i@.len()
            &&& expr@ is Empty <==> blanks(i@, 0) == i@.len()
        },
        r matches Err(error) ==> error.position < i@.len(),
{
    let chars = characters(i);
    proof {
        lemma_formula_within(chars@, table(scans@));
    }
    match expression(&chars, scans, 0) {
        Parsed::Done(expr, end) => {
            let at = skip_blanks(&chars, end);
            if at == chars.len() {
                Ok(expr)
            } else {
                Err(ParseError { position: at, cause: Cause::Unexpected })
            }
        },
        Parsed::Miss => {
            let at = skip_blanks(&chars, 0);
            if at == chars.len() {
                Ok(Expr::Empty)
            } else {
                Err(ParseError { position: at, cause: Cause::Unexpected })
            }
        },
        Parsed::Halt(at) => Err(ParseError { position: at, cause: Cause::BrokenNumber }),
    }
}

} // verus!
