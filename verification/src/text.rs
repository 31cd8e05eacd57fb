//! Texts as sequences of characters.

use vstd::prelude::*;
use crate::expr::{decimal, is_digit};

verus! {

/// The characters of `text`, in order.
pub fn characters(text: &str) -> (chars: Vec<char>)
    ensures
        chars@ == text@,
{
    let mut chars: Vec<char> = Vec::new();
    for c in it: text.chars()
        invariant
            it.seq() == text@,
            chars@ == it.seq().take(it.index() as int),
    {
        chars.push(c);
    }
    chars
}

/// Whether `text` is a decimal with one digit after the point.
pub fn is_decimal_text(text: &str) -> (yes: bool)
    ensures
        yes == decimal(text@),
{
    let chars = characters(text);
    let length = chars.len();
    if length < 3 {
        return false;
    }
    let last = chars[length - 1];
    if chars[length - 2] != '.' || !('0' <= last && last <= '9') {
        return false;
    }
    let mut i: usize = 0;
    while i < length - 2
        invariant
            i <= length - 2,
            length == chars.len(),
            length >= 3,
            chars@ == text@,
            forall|j: int| 0 <= j < i ==> is_digit(#[trigger] chars@[j]),
        decreases length - i,
    {
        let c = chars[i];
        if !('0' <= c && c <= '9') {
            return false;
        }
        i = i + 1;
    }
    true
}

} // verus!
