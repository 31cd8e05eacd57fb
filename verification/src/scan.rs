//! What the caller says of the numbers in a text.

use vstd::prelude::*;
use crate::expr::{Number, NumberModel};

verus! {

/// What reading a number at one position of a text gives.
///
/// A text of `n` characters comes with a table of scans, one for each
/// position `0..n`: the scan at `p` says what number, if any, the text holds
/// from its character `p` on. A table may be shorter: a position without an
/// entry holds no number.
///
/// The table is what a reader of floating-point numbers, such as
/// `nom::number::complete::float`, makes of the text from each of its
/// characters on. The library believes little of a table. It looks at an
/// entry only where a digit or a point stands in the text, and an entry that
/// cannot be counts as no number: one that ends behind the text, one whose
/// value is infinite, negative or no number, one whose text is no decimal
/// with one digit after the point.
#[derive(Debug, PartialEq, Eq, Clone)]
pub enum Scan {
    /// A number stands here.
    Number {
        /// How many characters the number takes; at least one.
        length: usize,
        /// The number.
        number: Number,
    },
    /// No number stands here.
    Nothing,
    /// A number begins here and breaks off inside its exponent.
    Broken,
}

/// The mathematical content of a [`Scan`].
pub enum ScanModel {
    Number { length: nat, number: NumberModel },
    Nothing,
    Broken,
}

impl View for Scan {
    type V = ScanModel;

    open spec fn view(&self) -> ScanModel {
        match *self {
            Scan::Number { length, number } => ScanModel::Number {
                length: length as nat,
                number: number@,
            },
            Scan::Nothing => ScanModel::Nothing,
            Scan::Broken => ScanModel::Broken,
        }
    }
}

/// The mathematical content of a table of scans.
pub open spec fn table(scans: Seq<Scan>) -> Seq<ScanModel> {
    scans.map_values(|scan: Scan| scan@)
}

} // verus!
