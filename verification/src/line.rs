//! Texts that can stand as one expression in a line of a program: their
//! parentheses are balanced, and they hold no line break, no brace and no
//! semicolon.

use vstd::prelude::*;

verus! {

/// What `c` adds to the depth of nesting: an opening parenthesis one level,
/// a closing one a level less.
pub open spec fn weight(c: char) -> int {
    if c == '(' {
        1
    } else if c == ')' {
        -1
    } else {
        0
    }
}

/// The depth of nesting at the end of `s`: its opening parentheses less its
/// closing ones.
pub open spec fn nesting(s: Seq<char>) -> int
    decreases s.len(),
{
    if s.len() == 0 {
        0
    } else {
        nesting(s.drop_last()) + weight(s.last())
    }
}

/// Whether the depth of nesting, begun at `base`, stays at or above zero
/// after every character of `s`.
pub open spec fn never_below(s: Seq<char>, base: int) -> bool {
    forall|k: int| 0 <= k <= s.len() ==> base + nesting(#[trigger] s.take(k)) >= 0
}

/// Whether the parentheses of `s` are balanced: each closing one closes an
/// opening one before it, and none stays open.
pub open spec fn balanced(s: Seq<char>) -> bool {
    nesting(s) == 0 && never_below(s, 0)
}

/// Whether `c` may stand in an expression that is spliced into a program:
/// it is no line break, no brace and no semicolon.
pub open spec fn fits_line(c: char) -> bool {
    c != '\n' && c != '\r' && c != '{' && c != '}' && c != ';'
}

/// Whether `s` is one line without braces and semicolons.
pub open spec fn one_line(s: Seq<char>) -> bool {
    forall|i: int| 0 <= i < s.len() ==> fits_line(#[trigger] s[i])
}

/// Whether `s` holds no parenthesis.
pub open spec fn flat(s: Seq<char>) -> bool {
    forall|i: int| 0 <= i < s.len() ==> weight(#[trigger] s[i]) == 0
}

/// Whether `s` is one line of balanced parentheses without braces and
/// semicolons.
pub open spec fn one_balanced_line(s: Seq<char>) -> bool {
    balanced(s) && one_line(s)
}

/// The call of `name` on `inside`: the name, and `inside` in parentheses.
pub open spec fn call(name: Seq<char>, inside: Seq<char>) -> Seq<char> {
    name + seq!['('] + inside + seq![')']
}

/// The depth of nesting of two texts in a row is the sum of theirs.
pub proof fn lemma_nesting_adds(a: Seq<char>, b: Seq<char>)
    ensures
        nesting(a + b) == nesting(a) + nesting(b),
    decreases b.len(),
{
    if b.len() == 0 {
        assert(a + b =~= a);
    } else {
        lemma_nesting_adds(a, b.drop_last());
        assert((a + b).drop_last() =~= a + b.drop_last());
        assert((a + b).last() == b.last());
    }
}

/// The depth of nesting of two texts in a row is the sum of theirs, and it
/// stays at or above zero where it does so in the first, and in the second
/// from where the first ends.
pub proof fn lemma_nesting_of_two(a: Seq<char>, b: Seq<char>, base: int)
    ensures
        nesting(a + b) == nesting(a) + nesting(b),
        never_below(a, base) && never_below(b, base + nesting(a)) ==> never_below(a + b, base),
{
    lemma_nesting_adds(a, b);
    if never_below(a, base) && never_below(b, base + nesting(a)) {
        assert forall|k: int| 0 <= k <= (a + b).len() implies base + nesting(
            #[trigger] (a + b).take(k),
        ) >= 0 by {
            if k <= a.len() {
                assert((a + b).take(k) =~= a.take(k));
            } else {
                let rest = b.take(k - a.len());
                assert((a + b).take(k) =~= a + rest);
                lemma_nesting_adds(a, rest);
            }
        }
    }
}

/// A text without parentheses has no depth.
pub proof fn lemma_flat_nesting(s: Seq<char>)
    requires
        flat(s),
    ensures
        nesting(s) == 0,
    decreases s.len(),
{
    if s.len() > 0 {
        lemma_flat_nesting(s.drop_last());
        assert(weight(s[s.len() - 1]) == 0);
    }
}

/// A text without parentheses has no depth, and goes nowhere below where it
/// begins.
pub proof fn lemma_flat(s: Seq<char>, base: int)
    requires
        flat(s),
    ensures
        nesting(s) == 0,
        base >= 0 ==> never_below(s, base),
{
    lemma_flat_nesting(s);
    if base >= 0 {
        assert forall|k: int| 0 <= k <= s.len() implies base + nesting(#[trigger] s.take(k))
            >= 0 by {
            lemma_flat_nesting(s.take(k));
        }
    }
}

/// What stays at or above zero from `base` on does so from anything higher.
pub proof fn lemma_never_below_higher(s: Seq<char>, base: int, higher: int)
    requires
        never_below(s, base),
        base <= higher,
    ensures
        never_below(s, higher),
{
}

/// The call of a name without parentheses on a balanced text is balanced.
pub proof fn lemma_call_balanced(name: Seq<char>, inside: Seq<char>)
    requires
        flat(name),
        balanced(inside),
    ensures
        balanced(call(name, inside)),
{
    let open = seq!['('];
    let close = seq![')'];
    assert(nesting(open) == 1 && never_below(open, 0)) by {
        assert(open.drop_last() =~= Seq::<char>::empty());
        assert(nesting(open.drop_last()) == 0);
        assert forall|k: int| 0 <= k <= open.len() implies 0 + nesting(#[trigger] open.take(k))
            >= 0 by {
            if k == 0 {
                assert(open.take(0) =~= Seq::<char>::empty());
            } else {
                assert(open.take(1) =~= open);
            }
        }
    }
    assert(nesting(close) == -1 && never_below(close, 1)) by {
        assert(close.drop_last() =~= Seq::<char>::empty());
        assert(nesting(close.drop_last()) == 0);
        assert forall|k: int| 0 <= k <= close.len() implies 1 + nesting(
            #[trigger] close.take(k),
        ) >= 0 by {
            if k == 0 {
                assert(close.take(0) =~= Seq::<char>::empty());
            } else {
                assert(close.take(1) =~= close);
            }
        }
    }
    lemma_flat(name, 0);
    lemma_nesting_of_two(name, open, 0);
    lemma_never_below_higher(inside, 0, 1);
    lemma_nesting_of_two(name + open, inside, 0);
    lemma_nesting_of_two(name + open + inside, close, 0);
}

/// Two balanced texts with a text without parentheses between them are
/// balanced.
pub proof fn lemma_joined_balanced(a: Seq<char>, between: Seq<char>, b: Seq<char>)
    requires
        balanced(a),
        flat(between),
        balanced(b),
    ensures
        balanced(a + between + b),
{
    lemma_flat(between, 0);
    lemma_nesting_of_two(a, between, 0);
    lemma_nesting_of_two(a + between, b, 0);
}

/// A text without parentheses is balanced.
pub proof fn lemma_flat_balanced(s: Seq<char>)
    requires
        flat(s),
    ensures
        balanced(s),
{
    lemma_flat(s, 0);
}

} // verus!
