//! Column widths for listing tokens with their positions.
//!
//! A listing shows each token as `[name:line:column] instruction`, with
//! lines and columns padded to one width each, so that the entries line up.

use vstd::prelude::*;
use vstd::arithmetic::power::{lemma_pow0, pow};
use crate::token::Token;

verus! {

/// The number of decimal digits of `n`, taking zero to have none.
pub open spec fn decimal_digits(n: nat) -> nat
    decreases n,
{
    if n == 0 {
        0
    } else {
        1 + decimal_digits(n / 10)
    }
}

/// The largest column of any of the tokens, and zero if there are none.
pub open spec fn widest_column(tokens: Seq<Token>) -> nat
    decreases tokens.len(),
{
    if tokens.len() == 0 {
        0
    } else {
        let before = widest_column(tokens.drop_last());
        if tokens.last().col_number > before {
            tokens.last().col_number as nat
        } else {
            before
        }
    }
}

/// A number has no more digits than its value.
pub proof fn lemma_digits_bounded(n: nat)
    ensures
        decimal_digits(n) <= n,
    decreases n,
{
    if n > 0 {
        lemma_digits_bounded(n / 10);
    }
}

/// A number of `d` digits lies between the smallest and the largest number
/// that `d` digits can write: at least `10^(d-1)` and less than `10^d`.
pub proof fn lemma_digits_bracket(n: nat)
    requires
        n > 0,
    ensures
        decimal_digits(n) >= 1,
        pow(10, (decimal_digits(n) - 1) as nat) <= n < pow(10, decimal_digits(n)),
    decreases n,
{
    let d = decimal_digits(n);
    if n < 10 {
        assert(n / 10 == 0);
        assert(decimal_digits(n / 10) == 0);
        assert(d == 1);
        lemma_pow0(10);
        reveal(pow);
        assert(pow(10, 1) == 10 * pow(10, 0));
    } else {
        lemma_digits_bracket(n / 10);
        let low = pow(10, (d - 2) as nat);
        let high = pow(10, (d - 1) as nat);
        assert(pow(10, (d - 1) as nat) == 10 * low) by {
            reveal(pow);
        }
        assert(pow(10, d) == 10 * high) by {
            reveal(pow);
        }
    }
}

/// The widest column is the column of one of the tokens and no token has a
/// larger one.
pub proof fn lemma_widest_column(tokens: Seq<Token>)
    ensures
        forall|i: int| 0 <= i < tokens.len() ==> tokens[i].col_number <= widest_column(tokens),
        tokens.len() > 0 ==> exists|i: int|
            0 <= i < tokens.len() && tokens[i].col_number == widest_column(tokens),
    decreases tokens.len(),
{
    if tokens.len() > 0 {
        let before = tokens.drop_last();
        lemma_widest_column(before);
        assert forall|i: int| 0 <= i < tokens.len() implies tokens[i].col_number <= widest_column(
            tokens,
        ) by {
            if i < before.len() {
                assert(before[i] == tokens[i]);
            }
        }
        if tokens.last().col_number > widest_column(before) || before.len() == 0 {
            assert(tokens[tokens.len() - 1].col_number == widest_column(tokens));
        } else {
            let i = choose|i: int|
                0 <= i < before.len() && before[i].col_number == widest_column(before);
            assert(tokens[i] == before[i]);
        }
    }
}

/// Counts the decimal digits of `n`: none for zero.
pub fn calculate_digits(n: usize) -> (digits: usize)
    ensures
        digits == decimal_digits(n as nat),
{
    let mut digits: usize = 0;
    let mut rest: usize = n;
    while rest != 0
        invariant
            digits + decimal_digits(rest as nat) == decimal_digits(n as nat),
        decreases rest,
    {
        proof {
            lemma_digits_bounded(n as nat);
        }
        digits += 1;
        rest /= 10;
    }
    digits
}

/// The widths that line up a listing of `tokens`: the number of digits of
/// the last token's line, and of the largest column. There are none for an
/// empty listing.
pub fn position_widths(tokens: &[Token]) -> (widths: Option<(usize, usize)>)
    ensures
        widths is Some <==> tokens@.len() > 0,
        widths matches Some((line_width, column_width)) ==> {
            &&& line_width == decimal_digits(tokens@.last().line_number as nat)
            &&& column_width == decimal_digits(widest_column(tokens@))
        },
{
    let n = tokens.len();
    if n == 0 {
        return None;
    }
    let mut widest: usize = 0;
    let mut i: usize = 0;
    while i < n
        invariant
            n == tokens@.len(),
            i <= n,
            widest == widest_column(tokens@.subrange(0, i as int)),
        decreases n - i,
    {
        assert(tokens@.subrange(0, i + 1).drop_last() =~= tokens@.subrange(0, i as int));
        if tokens[i].col_number > widest {
            widest = tokens[i].col_number;
        }
        i += 1;
    }
    assert(tokens@.subrange(0, n as int) =~= tokens@);
    Some((calculate_digits(tokens[n - 1].line_number), calculate_digits(widest)))
}

} // verus!
