//! The score as the player reads it: decimal digits in groups of three, separated by commas.
use vstd::prelude::*;
use thousands::Separable;
use crate::tally::Tally;

verus! {

/// The decimal digit `d` (0 to 9) as a character.
pub open spec fn digit_char(d: int) -> char {
    if d == 0 {
        '0'
    } else if d == 1 {
        '1'
    } else if d == 2 {
        '2'
    } else if d == 3 {
        '3'
    } else if d == 4 {
        '4'
    } else if d == 5 {
        '5'
    } else if d == 6 {
        '6'
    } else if d == 7 {
        '7'
    } else if d == 8 {
        '8'
    } else {
        '9'
    }
}

/// The decimal digits of `n`, without leading zeros.
pub open spec fn decimal(n: nat) -> Seq<char>
    decreases n,
{
    if n < 10 {
        seq![digit_char(n as int)]
    } else {
        decimal(n / 10).push(digit_char((n % 10) as int))
    }
}

/// The decimal digits of `n`, a comma before each group of three counted from the right.
pub open spec fn grouped(n: nat) -> Seq<char>
    decreases n,
{
    if n < 1000 {
        decimal(n)
    } else {
        let m = (n % 1000) as int;
        grouped(n / 1000) + seq![',', digit_char(m / 100), digit_char((m / 10) % 10), digit_char(m % 10)]
    }
}

/// `n` written in decimal with thousands separated by commas, a minus sign before a negative.
pub open spec fn with_commas(n: int) -> Seq<char> {
    if n < 0 {
        seq!['-'] + grouped((-n) as nat)
    } else {
        grouped(n as nat)
    }
}

/// Relies on `thousands::Separable::separate_with_commas`, which writes the number with
/// `Display` and puts a comma between each group of three digits from the right.
#[verifier::external_body]
fn separate_with_commas(n: i128) -> (r: String)
    ensures
        r@ == with_commas(n as int),
{
    n.separate_with_commas()
}

/// `n` written with thousands separated by commas.
pub fn with_thousands(n: i128) -> (r: String)
    ensures
        r@ == with_commas(n as int),
{
    separate_with_commas(n)
}

impl Tally {
    /// The score written with thousands separated by commas.
    pub fn score_text(&self) -> (r: String)
        ensures
            r@ == with_commas(self.score as int),
    {
        separate_with_commas(self.score)
    }
}

} // verus!
