//! What holds of every step of the grammar: a part that is read lies within
//! the text, takes at least one character, and has a proper tree that is no
//! higher than the part is long.

use vstd::prelude::*;
use crate::expr::Tree;
use crate::grammar::{
    atom, blanks, expression, factor, formula, holds, is_blank, left, literal, more_factors,
    more_terms, spells_log, term, unary, Step,
};
use crate::scan::ScanModel;

verus! {

/// Whether `step`, read at position `p` of `s`, is within bounds: a tree is
/// proper, takes between one character and all that are left, and is no
/// higher than it is long; the position of a broken number lies between `p`
/// and the end of `s`.
pub open spec fn within(s: Seq<char>, p: int, step: Step) -> bool {
    match step {
        Step::Done(tree, n) => {
            &&& tree.proper()
            &&& 0 < n
            &&& p + n <= s.len()
            &&& tree.height() <= n
        },
        Step::Miss => true,
        Step::Halt(at) => p <= at < s.len(),
    }
}

/// Whether `step`, which goes on at position `p` behind a tree of at most
/// `behind` characters, is within bounds: it is never a miss, its tree is
/// proper, ends within `s`, and is no higher than what lies behind and what it
/// takes, together.
pub open spec fn within_behind(s: Seq<char>, p: int, behind: nat, step: Step) -> bool {
    match step {
        Step::Done(tree, n) => {
            &&& tree.proper()
            &&& p + n <= s.len()
            &&& tree.height() <= behind + n
        },
        Step::Miss => false,
        Step::Halt(at) => p <= at < s.len(),
    }
}

/// The blanks at `p` end within `s`.
pub proof fn lemma_blanks_end(s: Seq<char>, p: int)
    requires
        0 <= p <= s.len(),
    ensures
        p + blanks(s, p) <= s.len(),
        forall|i: int| p <= i < p + blanks(s, p) ==> is_blank(#[trigger] s[i]),
        p + blanks(s, p) < s.len() ==> !is_blank(s[p + blanks(s, p)]),
    decreases s.len() - p,
{
    if p < s.len() && is_blank(s[p]) {
        lemma_blanks_end(s, p + 1);
    }
}

/// A literal is within bounds.
pub proof fn lemma_literal_within(s: Seq<char>, scans: Seq<ScanModel>, q: int)
    requires
        0 <= q <= s.len(),
    ensures
        within(s, q, literal(s, scans, q)),
{
}

/// An atom is within bounds.
pub proof fn lemma_atom_within(s: Seq<char>, scans: Seq<ScanModel>, p: int)
    requires
        0 <= p <= s.len(),
    ensures
        within(s, p, atom(s, scans, p)),
    decreases left(s, p), 0nat,
{
    reveal(atom);
    reveal(expression);
    lemma_blanks_end(s, p);
    let q = p + blanks(s, p);
    lemma_literal_within(s, scans, q);
    if literal(s, scans, q) is Miss {
        if holds(s, q, 'z') {
        } else if holds(s, q, '(') {
            lemma_expression_within(s, scans, q + 1);
            if let Step::Done(tree, n) = expression(s, scans, q + 1) {
                lemma_blanks_end(s, q + 1 + n);
            }
        } else if spells_log(s, q) {
            lemma_blanks_end(s, q + 3);
            let open = q + 3 + blanks(s, q + 3);
            if holds(s, open, '(') {
                lemma_expression_within(s, scans, open + 1);
                if let Step::Done(tree, n) = expression(s, scans, open + 1) {
                    lemma_blanks_end(s, open + 1 + n);
                }
            }
        }
    }
}

/// A unary is within bounds.
pub proof fn lemma_unary_within(s: Seq<char>, scans: Seq<ScanModel>, p: int)
    requires
        0 <= p <= s.len(),
    ensures
        within(s, p, unary(s, scans, p)),
    decreases left(s, p), 1nat,
{
    reveal(unary);
    reveal(atom);
    lemma_blanks_end(s, p);
    let q = p + blanks(s, p);
    if holds(s, q, '-') || holds(s, q, '+') {
        lemma_atom_within(s, scans, q + 1);
    } else {
        lemma_atom_within(s, scans, p);
    }
}

/// A factor is within bounds.
pub proof fn lemma_factor_within(s: Seq<char>, scans: Seq<ScanModel>, p: int)
    requires
        0 <= p <= s.len(),
    ensures
        within(s, p, factor(s, scans, p)),
    decreases left(s, p), 2nat,
{
    reveal(factor);
    reveal(unary);
    lemma_unary_within(s, scans, p);
    if let Step::Done(base, n) = unary(s, scans, p) {
        lemma_blanks_end(s, p + n);
        let q = p + n + blanks(s, p + n);
        if holds(s, q, '^') {
            lemma_factor_within(s, scans, q + 1);
        }
    }
}

/// What follows a factor is within bounds.
pub proof fn lemma_more_factors_within(
    s: Seq<char>,
    scans: Seq<ScanModel>,
    p: int,
    so_far: Tree,
    behind: nat,
)
    requires
        0 <= p <= s.len(),
        so_far.proper(),
        0 < behind <= p,
        so_far.height() <= behind,
    ensures
        within_behind(s, p, behind, more_factors(s, scans, p, so_far)),
    decreases left(s, p), 3nat,
{
    reveal(more_factors);
    reveal(factor);
    lemma_blanks_end(s, p);
    let q = p + blanks(s, p);
    if holds(s, q, '*') || holds(s, q, '/') {
        lemma_factor_within(s, scans, q + 1);
        if let Step::Done(right, m) = factor(s, scans, q + 1) {
            let joined = Tree::Binary(s[q], Box::new(so_far), Box::new(right));
            lemma_more_factors_within(s, scans, q + 1 + m, joined, (behind + q + 1 + m - p) as nat);
        }
    }
}

/// A term is within bounds.
pub proof fn lemma_term_within(s: Seq<char>, scans: Seq<ScanModel>, p: int)
    requires
        0 <= p <= s.len(),
    ensures
        within(s, p, term(s, scans, p)),
    decreases left(s, p), 4nat,
{
    reveal(term);
    reveal(factor);
    reveal(more_factors);
    lemma_factor_within(s, scans, p);
    if let Step::Done(first, n) = factor(s, scans, p) {
        lemma_more_factors_within(s, scans, p + n, first, n);
    }
}

/// What follows a term is within bounds.
pub proof fn lemma_more_terms_within(
    s: Seq<char>,
    scans: Seq<ScanModel>,
    p: int,
    so_far: Tree,
    behind: nat,
)
    requires
        0 <= p <= s.len(),
        so_far.proper(),
        0 < behind <= p,
        so_far.height() <= behind,
    ensures
        within_behind(s, p, behind, more_terms(s, scans, p, so_far)),
    decreases left(s, p), 5nat,
{
    reveal(more_terms);
    reveal(term);
    lemma_blanks_end(s, p);
    let q = p + blanks(s, p);
    if holds(s, q, '+') || holds(s, q, '-') {
        lemma_term_within(s, scans, q + 1);
        if let Step::Done(right, m) = term(s, scans, q + 1) {
            let joined = Tree::Binary(s[q], Box::new(so_far), Box::new(right));
            lemma_more_terms_within(s, scans, q + 1 + m, joined, (behind + q + 1 + m - p) as nat);
        }
    }
}

/// An expression is within bounds.
pub proof fn lemma_expression_within(s: Seq<char>, scans: Seq<ScanModel>, p: int)
    requires
        0 <= p <= s.len(),
    ensures
        within(s, p, expression(s, scans, p)),
    decreases left(s, p), 6nat,
{
    reveal(expression);
    reveal(term);
    reveal(more_terms);
    lemma_term_within(s, scans, p);
    if let Step::Done(first, n) = term(s, scans, p) {
        lemma_more_terms_within(s, scans, p + n, first, n);
    }
}

/// The tree of a formula is well formed and no higher than the text is long;
/// [`Tree::Empty`] stands for a text of blanks only, and for no other; an
/// error stands at a character of the text.
pub proof fn lemma_formula_within(s: Seq<char>, scans: Seq<ScanModel>)
    requires
        s.len() <= usize::MAX,
    ensures
        match formula(s, scans) {
            Ok(tree) => {
                &&& tree.well_formed()
                &&& tree.height() <= s.len()
                &&& tree is Empty <==> blanks(s, 0) == s.len()
            },
            Err(error) => error.position < s.len(),
        },
{
    lemma_expression_within(s, scans, 0);
    lemma_blanks_end(s, 0);
    match expression(s, scans, 0) {
        Step::Done(tree, n) => {
            lemma_blanks_end(s, n as int);
            lemma_blanks_stop_atoms(s, scans);
        },
        _ => {},
    }
}

/// In a text of blanks only no expression stands.
pub proof fn lemma_blanks_stop_atoms(s: Seq<char>, scans: Seq<ScanModel>)
    ensures
        blanks(s, 0) == s.len() ==> expression(s, scans, 0) is Miss,
{
    reveal(atom);
    reveal(unary);
    reveal(factor);
    reveal(term);
    reveal(expression);
    if blanks(s, 0) == s.len() {
        lemma_blanks_end(s, 0);
        assert(atom(s, scans, 0) is Miss);
        assert(unary(s, scans, 0) is Miss);
        assert(factor(s, scans, 0) is Miss);
        assert(term(s, scans, 0) is Miss);
    }
}

} // verus!
