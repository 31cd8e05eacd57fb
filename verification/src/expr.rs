//! The tree of a formula.

use vstd::prelude::*;
use crate::text::is_decimal_text;

verus! {

/// The functions of one operand that a formula can apply.
#[derive(Debug, PartialEq, Eq, Clone, Copy)]
pub enum Name {
    /// The logarithm, written `log(..)`.
    Log,
    /// The sign `-` before an operand.
    Neg,
    /// The sign `+` before an operand.
    Pos,
}

/// A number as a formula holds it: a value that is finite and not negative.
///
/// A number is valid where its bits are those of such a value and its text
/// is a decimal with one digit after the point, see [`NumberModel::valid`].
/// The library cannot hold the text against the bits; whoever makes a number
/// writes the value of the bits into the text.
#[derive(Debug, PartialEq, Eq, Clone)]
pub struct Number {
    /// The bits of the single-precision value.
    pub bits: u32,
    /// The decimal text that is written out for the value: digits, a point,
    /// and one digit.
    pub text: String,
}

/// The mathematical content of a [`Number`].
pub struct NumberModel {
    pub bits: u32,
    pub text: Seq<char>,
}

impl View for Number {
    type V = NumberModel;

    open spec fn view(&self) -> NumberModel {
        NumberModel { bits: self.bits, text: self.text@ }
    }
}

/// A formula.
#[derive(Debug, PartialEq, Eq)]
pub enum Expr {
    /// An operator, one of `+ - * / ^`, between a left and a right operand.
    Binary(char, Box<Expr>, Box<Expr>),
    /// A function applied to an operand.
    Func(Name, Box<Expr>),
    /// A real number.
    Real(Number),
    /// An imaginary number, given by its coefficient.
    Imaginary(Number),
    /// The variable `z`.
    VarZ,
    /// The formula of a text that holds nothing but blanks.
    Empty,
}

/// Whether `c` is one of the operators `+ - * / ^`.
pub open spec fn is_operator(c: char) -> bool {
    c == '+' || c == '-' || c == '*' || c == '/' || c == '^'
}

/// Whether `c` is a decimal digit.
pub open spec fn is_digit(c: char) -> bool {
    '0' <= c <= '9'
}

/// Whether `text` is a decimal with one digit after the point: one digit or
/// more, a point, and one digit.
pub open spec fn decimal(text: Seq<char>) -> bool {
    &&& text.len() >= 3
    &&& forall|i: int| 0 <= i < text.len() - 2 ==> is_digit(#[trigger] text[i])
    &&& text[text.len() - 2] == '.'
    &&& is_digit(text[text.len() - 1])
}

/// Whether `bits` are those of a single-precision value that is finite and
/// not negative: they lie below the bits of infinity, so that the sign is
/// clear and the exponent is not the one of infinities and of values that
/// are no number.
pub open spec fn finite(bits: u32) -> bool {
    bits < 0x7f80_0000
}

/// The bits below those of infinity are those with a clear sign and an
/// exponent that is not all ones.
pub proof fn lemma_finite_fields(bits: u32)
    ensures
        finite(bits) <==> bits >> 31 == 0 && (bits >> 23) & 0xff != 0xff,
{
    assert(bits < 0x7f80_0000u32 <==> bits >> 31 == 0 && (bits >> 23) & 0xff != 0xff)
        by (bit_vector);
}

impl NumberModel {
    /// Whether the number is valid: its bits are those of a finite value
    /// that is not negative, and its text is a decimal with one digit after
    /// the point.
    pub open spec fn valid(self) -> bool {
        finite(self.bits) && decimal(self.text)
    }
}

/// The mathematical content of an [`Expr`].
pub enum Tree {
    Binary(char, Box<Tree>, Box<Tree>),
    Func(Name, Box<Tree>),
    Real(NumberModel),
    Imaginary(NumberModel),
    VarZ,
    Empty,
}

impl Tree {
    /// Whether the tree is one that a formula with something in it has: its
    /// operators are among `+ - * / ^`, its numbers are valid, and
    /// [`Tree::Empty`] stands nowhere in it.
    pub open spec fn proper(self) -> bool
        decreases self,
    {
        match self {
            Tree::Binary(op, left, right) => is_operator(op) && left.proper() && right.proper(),
            Tree::Func(_, operand) => operand.proper(),
            Tree::Real(number) => number.valid(),
            Tree::Imaginary(number) => number.valid(),
            Tree::VarZ => true,
            Tree::Empty => false,
        }
    }

    /// Whether the tree is well formed: it is proper, or it is
    /// [`Tree::Empty`] as a whole.
    pub open spec fn well_formed(self) -> bool {
        self is Empty || self.proper()
    }

    /// The number of nodes on the longest way from the root down;
    /// [`Tree::Empty`] has none.
    pub open spec fn height(self) -> nat
        decreases self,
    {
        match self {
            Tree::Binary(_, left, right) => 1 + if left.height() >= right.height() {
                left.height()
            } else {
                right.height()
            },
            Tree::Func(_, operand) => 1 + operand.height(),
            Tree::Real(_) => 1,
            Tree::Imaginary(_) => 1,
            Tree::VarZ => 1,
            Tree::Empty => 0,
        }
    }
}

/// The tree that `expr` stands for.
pub open spec fn tree_of(expr: Expr) -> Tree
    decreases expr,
{
    match expr {
        Expr::Binary(op, left, right) => Tree::Binary(
            op,
            Box::new(tree_of(*left)),
            Box::new(tree_of(*right)),
        ),
        Expr::Func(name, operand) => Tree::Func(name, Box::new(tree_of(*operand))),
        Expr::Real(number) => Tree::Real(number@),
        Expr::Imaginary(number) => Tree::Imaginary(number@),
        Expr::VarZ => Tree::VarZ,
        Expr::Empty => Tree::Empty,
    }
}

impl View for Expr {
    type V = Tree;

    open spec fn view(&self) -> Tree {
        tree_of(*self)
    }
}

impl Number {
    /// Whether the number is valid.
    pub fn is_valid(&self) -> (yes: bool)
        ensures
            yes == self@.valid(),
    {
        self.bits < 0x7f80_0000 && is_decimal_text(self.text.as_str())
    }
}

impl Expr {
    /// Whether the tree is proper.
    pub fn is_proper(&self) -> (yes: bool)
        ensures
            yes == self@.proper(),
        decreases self,
    {
        match self {
            Expr::Binary(op, left, right) => {
                let known = *op == '+' || *op == '-' || *op == '*' || *op == '/' || *op == '^';
                known && (**left).is_proper() && (**right).is_proper()
            },
            Expr::Func(_, operand) => (**operand).is_proper(),
            Expr::Real(number) => number.is_valid(),
            Expr::Imaginary(number) => number.is_valid(),
            Expr::VarZ => true,
            Expr::Empty => false,
        }
    }

    /// Whether the tree is well formed.
    pub fn is_well_formed(&self) -> (yes: bool)
        ensures
            yes == self@.well_formed(),
    {
        match self {
            Expr::Empty => true,
            _ => self.is_proper(),
        }
    }
}

impl Clone for Expr {
    fn clone(&self) -> (copy: Expr)
        ensures
            copy@ == self@,
        decreases self,
    {
        match self {
            Expr::Binary(op, left, right) => Expr::Binary(
                *op,
                Box::new((**left).clone()),
                Box::new((**right).clone()),
            ),
            Expr::Func(name, operand) => Expr::Func(*name, Box::new((**operand).clone())),
            Expr::Real(number) => Expr::Real(
                Number { bits: number.bits, text: number.text.clone() },
            ),
            Expr::Imaginary(number) => Expr::Imaginary(
                Number { bits: number.bits, text: number.text.clone() },
            ),
            Expr::VarZ => Expr::VarZ,
            Expr::Empty => Expr::Empty,
        }
    }
}

} // verus!
