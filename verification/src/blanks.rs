//! A blank more between two tokens changes nothing but the positions behind
//! it.

use vstd::prelude::*;
use crate::bounds::{
    lemma_atom_within, lemma_expression_within, lemma_factor_within, lemma_term_within,
    lemma_unary_within,
};
use crate::error::ParseError;
use crate::expr::Tree;
use crate::grammar::{
    atom, blanks, broken_at, counted_from, enclosed, entry, expression, factor, formula, holds,
    is_blank, left, literal, more_factors, more_terms, number_at, spells_log, term, unary, Step,
};
use crate::scan::ScanModel;

verus! {

/// The text `s` with the character `blank` put in at position `k`.
pub open spec fn widened(s: Seq<char>, k: int, blank: char) -> Seq<char> {
    s.subrange(0, k) + seq![blank] + s.subrange(k, s.len() as int)
}

/// Where the character at position `q` of a text stands once a character is
/// put in at `k`.
pub open spec fn moved(q: int, k: int) -> int {
    if q < k {
        q
    } else {
        q + 1
    }
}

/// Where a part that ends before position `e` of a text ends once a
/// character is put in at `k`.
spec fn moved_end(e: int, k: int) -> int {
    if e <= k {
        e
    } else {
        e + 1
    }
}

/// The step `step`, read at `p`, as it is read once a character is put in at
/// `k`: the same tree between the places to which its two ends move, or the
/// broken number where it moves to.
spec fn carried(step: Step, p: int, k: int) -> Step {
    match step {
        Step::Done(tree, n) => Step::Done(tree, (moved_end(p + n, k) - moved_end(p, k)) as nat),
        Step::Miss => Step::Miss,
        Step::Halt(at) => Step::Halt(moved(at, k)),
    }
}

/// The error `error` as it is found once a character is put in at `k`.
pub open spec fn carried_error(error: ParseError, k: int) -> ParseError {
    ParseError { position: moved(error.position as int, k) as usize, cause: error.cause }
}

/// Whether the table `wide` holds for the widened text what `scans` holds
/// for the text: the same entry for every character, where it moves to.
pub open spec fn scans_moved(scans: Seq<ScanModel>, wide: Seq<ScanModel>, k: int) -> bool {
    forall|q: int| #[trigger] entry(scans, q) == entry(wide, moved(q, k))
}

/// Whether position `k` of `s` lies outside every token: not within the
/// word `log`, not within a number of the table, and not between a number
/// and the `i` behind it.
pub open spec fn between_tokens(s: Seq<char>, scans: Seq<ScanModel>, k: int) -> bool {
    &&& 0 <= k <= s.len()
    &&& !spells_log(s, k - 1)
    &&& !spells_log(s, k - 2)
    &&& forall|q: int|
        0 <= q < k ==> (#[trigger] entry(scans, q) matches ScanModel::Number { length, .. }
            ==> q + length <= k && !(q + length == k && holds(s, k, 'i')))
}

/// Whether `wide` and `wide_scans` are `s` and `scans` with a blank put in
/// between two tokens, at position `k`.
#[verifier::opaque]
spec fn blank_put_in(
    s: Seq<char>,
    scans: Seq<ScanModel>,
    k: int,
    wide: Seq<char>,
    wide_scans: Seq<ScanModel>,
) -> bool {
    &&& between_tokens(s, scans, k)
    &&& exists|blank: char| is_blank(blank) && wide == #[trigger] widened(s, k, blank)
    &&& scans_moved(scans, wide_scans, k)
}

/// The characters of the widened text are those of the text, moved.
proof fn lemma_widened(
    s: Seq<char>,
    scans: Seq<ScanModel>,
    k: int,
    wide: Seq<char>,
    wide_scans: Seq<ScanModel>,
)
    requires
        blank_put_in(s, scans, k, wide, wide_scans),
    ensures
        0 <= k <= s.len(),
        wide.len() == s.len() + 1,
        is_blank(wide[k]),
        forall|q: int| 0 <= q < s.len() ==> #[trigger] wide[moved(q, k)] == s[q],
        forall|q: int, c: char| #[trigger] holds(wide, moved(q, k), c) == holds(s, q, c),
        forall|q: int| #[trigger] moved(q, k) + 1 == moved_end(q + 1, k),
{
    reveal(blank_put_in);
    let blank = choose|blank: char| is_blank(blank) && wide == #[trigger] widened(s, k, blank);
    assert(wide == widened(s, k, blank));
    assert(wide.len() == s.len() + 1);
    assert(wide[k] == blank);
    assert forall|q: int| 0 <= q < s.len() implies #[trigger] wide[moved(q, k)] == s[q] by {
        if q < k {
            assert(wide[q] == s.subrange(0, k)[q]);
        } else {
            assert(wide[q + 1] == s.subrange(k, s.len() as int)[q - k]);
        }
    }
    assert forall|q: int, c: char| #[trigger] holds(wide, moved(q, k), c) == holds(s, q, c) by {
        if 0 <= q < s.len() {
            assert(wide[moved(q, k)] == s[q]);
        }
    }
}

/// The blanks at a position end, in the widened text, where the character
/// behind them moves to.
proof fn lemma_blanks_moved(
    s: Seq<char>,
    scans: Seq<ScanModel>,
    k: int,
    wide: Seq<char>,
    wide_scans: Seq<ScanModel>,
    p: int,
)
    requires
        blank_put_in(s, scans, k, wide, wide_scans),
        0 <= p <= s.len(),
    ensures
        moved_end(p, k) + blanks(wide, moved_end(p, k)) == moved(p + blanks(s, p), k),
        p + blanks(s, p) <= s.len(),
    decreases s.len() - p,
{
    lemma_widened(s, scans, k, wide, wide_scans);
    if p < s.len() {
        assert(wide[moved(p, k)] == s[p]);
    }
    if p == k {
        if p < s.len() && is_blank(s[p]) {
            lemma_blanks_moved(s, scans, k, wide, wide_scans, p + 1);
        }
        assert(blanks(wide, k) == 1 + blanks(wide, k + 1));
    } else if p < s.len() && is_blank(s[p]) {
        lemma_blanks_moved(s, scans, k, wide, wide_scans, p + 1);
    }
}

/// The token behind the blanks at `p` stands, in the widened text, behind
/// the blanks at the place to which `p` moves, and what follows it follows
/// it there too.
proof fn lemma_token_moved(
    s: Seq<char>,
    scans: Seq<ScanModel>,
    k: int,
    wide: Seq<char>,
    wide_scans: Seq<ScanModel>,
    p: int,
    c: char,
)
    requires
        blank_put_in(s, scans, k, wide, wide_scans),
        0 <= p <= s.len(),
    ensures
        ({
            let q = p + blanks(s, p);
            let wide_q = moved_end(p, k) + blanks(wide, moved_end(p, k));
            &&& q <= s.len()
            &&& wide_q == moved(q, k)
            &&& holds(wide, wide_q, c) == holds(s, q, c)
            &&& holds(s, q, c) ==> wide[wide_q] == s[q]
            &&& wide_q + 1 == moved_end(q + 1, k)
        }),
{
    lemma_widened(s, scans, k, wide, wide_scans);
    lemma_blanks_moved(s, scans, k, wide, wide_scans, p);
    let q = p + blanks(s, p);
    assert(holds(wide, moved(q, k), c) == holds(s, q, c));
    if holds(s, q, c) {
        assert(wide[moved(q, k)] == s[q]);
    }
}

/// Counting a step from an earlier position and carrying it over can be done
/// in either order.
proof fn lemma_counted_carried(p: int, from: int, rest: Step, k: int)
    requires
        p <= from,
    ensures
        carried(counted_from(p, from, rest), p, k) == counted_from(
            moved_end(p, k),
            moved_end(from, k),
            carried(rest, from, k),
        ),
{
}

/// A literal is read in the widened text as in the text, where it moves to,
/// and one that begins before `k` ends at or before `k`.
proof fn lemma_literal_moved(
    s: Seq<char>,
    scans: Seq<ScanModel>,
    k: int,
    wide: Seq<char>,
    wide_scans: Seq<ScanModel>,
    q: int,
)
    requires
        blank_put_in(s, scans, k, wide, wide_scans),
        0 <= q <= s.len(),
    ensures
        match literal(s, scans, q) {
            Step::Done(tree, n) => literal(wide, wide_scans, moved(q, k)) == Step::Done(tree, n)
                && q + n <= s.len() && (q < k ==> q + n <= k),
            Step::Miss => literal(wide, wide_scans, moved(q, k)) is Miss,
            Step::Halt(at) => literal(wide, wide_scans, moved(q, k)) == Step::Halt(moved(at, k)),
        },
{
    reveal(blank_put_in);
    lemma_widened(s, scans, k, wide, wide_scans);
    assert(entry(scans, q) == entry(wide_scans, moved(q, k)));
    assert(holds(wide, moved(q, k), 'i') == holds(s, q, 'i'));
    assert(broken_at(wide, wide_scans, moved(q, k)) == broken_at(s, scans, q));
    assert(number_at(wide, wide_scans, moved(q, k)) == number_at(s, scans, q));
    if let Some((length, number)) = number_at(s, scans, q) {
        if q < k {
            if q + length < k {
                assert(holds(wide, moved(q + length, k), 'i') == holds(s, q + length, 'i'));
            } else {
                assert(!holds(wide, k, 'i'));
            }
        } else {
            assert(holds(wide, moved(q + length, k), 'i') == holds(s, q + length, 'i'));
        }
    }
}

/// The word `log` stands in the widened text where it moves to, and
/// nowhere else.
proof fn lemma_log_moved(
    s: Seq<char>,
    scans: Seq<ScanModel>,
    k: int,
    wide: Seq<char>,
    wide_scans: Seq<ScanModel>,
    q: int,
)
    requires
        blank_put_in(s, scans, k, wide, wide_scans),
        0 <= q <= s.len(),
    ensures
        spells_log(wide, moved(q, k)) == spells_log(s, q),
        spells_log(s, q) ==> moved(q, k) + 3 == moved_end(q + 3, k),
{
    reveal(blank_put_in);
    lemma_widened(s, scans, k, wide, wide_scans);
    assert(holds(wide, moved(q, k), 'l') == holds(s, q, 'l'));
    assert(holds(wide, moved(q + 1, k), 'o') == holds(s, q + 1, 'o'));
    assert(holds(wide, moved(q + 2, k), 'g') == holds(s, q + 2, 'g'));
    if q + 1 == k {
        assert(!holds(wide, k, 'o'));
    }
    if q + 2 == k {
        assert(!holds(wide, k, 'g'));
    }
}

/// What stands behind an opening parenthesis is read in the widened text as
/// in the text.
proof fn lemma_enclosed_moved(
    s: Seq<char>,
    scans: Seq<ScanModel>,
    k: int,
    wide: Seq<char>,
    wide_scans: Seq<ScanModel>,
    p: int,
    from: int,
    inner: Step,
)
    requires
        blank_put_in(s, scans, k, wide, wide_scans),
        0 <= p <= from <= s.len(),
        inner matches Step::Done(_, n) ==> from + n <= s.len(),
    ensures
        enclosed(wide, moved_end(p, k), moved_end(from, k), carried(inner, from, k)) == carried(
            enclosed(s, p, from, inner),
            p,
            k,
        ),
{
    if let Step::Done(tree, n) = inner {
        lemma_token_moved(s, scans, k, wide, wide_scans, from + n, ')');
    }
}

/// An atom is read in the widened text as in the text.
#[verifier::spinoff_prover]
proof fn lemma_atom_moved(
    s: Seq<char>,
    scans: Seq<ScanModel>,
    k: int,
    wide: Seq<char>,
    wide_scans: Seq<ScanModel>,
    p: int,
)
    requires
        blank_put_in(s, scans, k, wide, wide_scans),
        0 <= p <= s.len(),
    ensures
        atom(wide, wide_scans, moved_end(p, k)) == carried(atom(s, scans, p), p, k),
    decreases left(s, p), 0nat,
{
    reveal(atom);
    reveal(expression);
    lemma_token_moved(s, scans, k, wide, wide_scans, p, 'z');
    lemma_token_moved(s, scans, k, wide, wide_scans, p, '(');
    let q = p + blanks(s, p);
    lemma_literal_moved(s, scans, k, wide, wide_scans, q);
    if literal(s, scans, q) is Miss {
        if holds(s, q, 'z') {
        } else if holds(s, q, '(') {
            lemma_expression_moved(s, scans, k, wide, wide_scans, q + 1);
            lemma_expression_within(s, scans, q + 1);
            lemma_enclosed_moved(
                s,
                scans,
                k,
                wide,
                wide_scans,
                p,
                q + 1,
                expression(s, scans, q + 1),
            );
        } else {
            lemma_log_moved(s, scans, k, wide, wide_scans, q);
            if spells_log(s, q) {
                lemma_token_moved(s, scans, k, wide, wide_scans, q + 3, '(');
                let open = q + 3 + blanks(s, q + 3);
                if holds(s, open, '(') {
                    lemma_expression_moved(s, scans, k, wide, wide_scans, open + 1);
                    lemma_expression_within(s, scans, open + 1);
                    lemma_enclosed_moved(
                        s,
                        scans,
                        k,
                        wide,
                        wide_scans,
                        p,
                        open + 1,
                        expression(s, scans, open + 1),
                    );
                }
            }
        }
    }
}

/// A unary is read in the widened text as in the text.
#[verifier::spinoff_prover]
proof fn lemma_unary_moved(
    s: Seq<char>,
    scans: Seq<ScanModel>,
    k: int,
    wide: Seq<char>,
    wide_scans: Seq<ScanModel>,
    p: int,
)
    requires
        blank_put_in(s, scans, k, wide, wide_scans),
        0 <= p <= s.len(),
    ensures
        unary(wide, wide_scans, moved_end(p, k)) == carried(unary(s, scans, p), p, k),
    decreases left(s, p), 1nat,
{
    reveal(unary);
    reveal(atom);
    lemma_token_moved(s, scans, k, wide, wide_scans, p, '-');
    lemma_token_moved(s, scans, k, wide, wide_scans, p, '+');
    let q = p + blanks(s, p);
    if holds(s, q, '-') || holds(s, q, '+') {
        lemma_atom_moved(s, scans, k, wide, wide_scans, q + 1);
        lemma_atom_within(s, scans, q + 1);
    } else {
        lemma_atom_moved(s, scans, k, wide, wide_scans, p);
    }
}

/// A factor is read in the widened text as in the text.
#[verifier::spinoff_prover]
proof fn lemma_factor_moved(
    s: Seq<char>,
    scans: Seq<ScanModel>,
    k: int,
    wide: Seq<char>,
    wide_scans: Seq<ScanModel>,
    p: int,
)
    requires
        blank_put_in(s, scans, k, wide, wide_scans),
        0 <= p <= s.len(),
    ensures
        factor(wide, wide_scans, moved_end(p, k)) == carried(factor(s, scans, p), p, k),
    decreases left(s, p), 2nat,
{
    reveal(factor);
    reveal(unary);
    lemma_unary_moved(s, scans, k, wide, wide_scans, p);
    lemma_unary_within(s, scans, p);
    if let Step::Done(base, n) = unary(s, scans, p) {
        lemma_token_moved(s, scans, k, wide, wide_scans, p + n, '^');
        let q = p + n + blanks(s, p + n);
        if holds(s, q, '^') {
            lemma_factor_moved(s, scans, k, wide, wide_scans, q + 1);
            lemma_factor_within(s, scans, q + 1);
        }
    }
}

/// What follows a factor is read in the widened text as in the text.
proof fn lemma_more_factors_moved(
    s: Seq<char>,
    scans: Seq<ScanModel>,
    k: int,
    wide: Seq<char>,
    wide_scans: Seq<ScanModel>,
    p: int,
    so_far: Tree,
)
    requires
        blank_put_in(s, scans, k, wide, wide_scans),
        0 <= p <= s.len(),
    ensures
        more_factors(wide, wide_scans, moved_end(p, k), so_far) == carried(
            more_factors(s, scans, p, so_far),
            p,
            k,
        ),
    decreases left(s, p), 3nat,
{
    reveal(more_factors);
    reveal(factor);
    lemma_token_moved(s, scans, k, wide, wide_scans, p, '*');
    lemma_token_moved(s, scans, k, wide, wide_scans, p, '/');
    let q = p + blanks(s, p);
    if holds(s, q, '*') || holds(s, q, '/') {
        lemma_factor_moved(s, scans, k, wide, wide_scans, q + 1);
        lemma_factor_within(s, scans, q + 1);
        if let Step::Done(right, m) = factor(s, scans, q + 1) {
            let joined = Tree::Binary(s[q], Box::new(so_far), Box::new(right));
            lemma_more_factors_moved(s, scans, k, wide, wide_scans, q + 1 + m, joined);
            lemma_counted_carried(p, q + 1 + m, more_factors(s, scans, q + 1 + m, joined), k);
        }
    }
}

/// A term is read in the widened text as in the text.
#[verifier::spinoff_prover]
proof fn lemma_term_moved(
    s: Seq<char>,
    scans: Seq<ScanModel>,
    k: int,
    wide: Seq<char>,
    wide_scans: Seq<ScanModel>,
    p: int,
)
    requires
        blank_put_in(s, scans, k, wide, wide_scans),
        0 <= p <= s.len(),
    ensures
        term(wide, wide_scans, moved_end(p, k)) == carried(term(s, scans, p), p, k),
    decreases left(s, p), 4nat,
{
    reveal(term);
    reveal(factor);
    reveal(more_factors);
    lemma_factor_moved(s, scans, k, wide, wide_scans, p);
    lemma_factor_within(s, scans, p);
    if let Step::Done(first, n) = factor(s, scans, p) {
        lemma_more_factors_moved(s, scans, k, wide, wide_scans, p + n, first);
        lemma_counted_carried(p, p + n, more_factors(s, scans, p + n, first), k);
    }
}

/// What follows a term is read in the widened text as in the text.
#[verifier::spinoff_prover]
proof fn lemma_more_terms_moved(
    s: Seq<char>,
    scans: Seq<ScanModel>,
    k: int,
    wide: Seq<char>,
    wide_scans: Seq<ScanModel>,
    p: int,
    so_far: Tree,
)
    requires
        blank_put_in(s, scans, k, wide, wide_scans),
        0 <= p <= s.len(),
    ensures
        more_terms(wide, wide_scans, moved_end(p, k), so_far) == carried(
            more_terms(s, scans, p, so_far),
            p,
            k,
        ),
    decreases left(s, p), 5nat,
{
    reveal(more_terms);
    reveal(term);
    lemma_token_moved(s, scans, k, wide, wide_scans, p, '+');
    lemma_token_moved(s, scans, k, wide, wide_scans, p, '-');
    let q = p + blanks(s, p);
    if holds(s, q, '+') || holds(s, q, '-') {
        lemma_term_moved(s, scans, k, wide, wide_scans, q + 1);
        lemma_term_within(s, scans, q + 1);
        if let Step::Done(right, m) = term(s, scans, q + 1) {
            let joined = Tree::Binary(s[q], Box::new(so_far), Box::new(right));
            lemma_more_terms_moved(s, scans, k, wide, wide_scans, q + 1 + m, joined);
            lemma_counted_carried(p, q + 1 + m, more_terms(s, scans, q + 1 + m, joined), k);
        }
    }
}

/// An expression is read in the widened text as in the text.
#[verifier::spinoff_prover]
proof fn lemma_expression_moved(
    s: Seq<char>,
    scans: Seq<ScanModel>,
    k: int,
    wide: Seq<char>,
    wide_scans: Seq<ScanModel>,
    p: int,
)
    requires
        blank_put_in(s, scans, k, wide, wide_scans),
        0 <= p <= s.len(),
    ensures
        expression(wide, wide_scans, moved_end(p, k)) == carried(expression(s, scans, p), p, k),
    decreases left(s, p), 6nat,
{
    reveal(expression);
    reveal(term);
    reveal(more_terms);
    lemma_term_moved(s, scans, k, wide, wide_scans, p);
    lemma_term_within(s, scans, p);
    if let Step::Done(first, n) = term(s, scans, p) {
        lemma_more_terms_moved(s, scans, k, wide, wide_scans, p + n, first);
        lemma_counted_carried(p, p + n, more_terms(s, scans, p + n, first), k);
    }
}

/// A blank put in between two tokens, or before the first or behind the
/// last, does not change the formula: the widened text has the same tree, or
/// the same error where the character at fault moves to.
pub proof fn lemma_blank_between_tokens(
    s: Seq<char>,
    scans: Seq<ScanModel>,
    k: int,
    blank: char,
    wide_scans: Seq<ScanModel>,
)
    requires
        is_blank(blank),
        between_tokens(s, scans, k),
        scans_moved(scans, wide_scans, k),
        s.len() < usize::MAX,
    ensures
        formula(widened(s, k, blank), wide_scans) == match formula(s, scans) {
            Ok(tree) => Ok::<Tree, ParseError>(tree),
            Err(error) => Err(carried_error(error, k)),
        },
{
    let wide = widened(s, k, blank);
    assert(blank_put_in(s, scans, k, wide, wide_scans)) by {
        reveal(blank_put_in);
    }
    lemma_widened(s, scans, k, wide, wide_scans);
    lemma_expression_moved(s, scans, k, wide, wide_scans, 0);
    lemma_expression_within(s, scans, 0);
    match expression(s, scans, 0) {
        Step::Done(tree, n) => {
            lemma_blanks_moved(s, scans, k, wide, wide_scans, n as int);
        },
        Step::Miss => {
            lemma_blanks_moved(s, scans, k, wide, wide_scans, 0);
        },
        Step::Halt(at) => {},
    }
}

} // verus!
