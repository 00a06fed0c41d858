//! Currency formatting: an integer amount of minor units (pence) rendered as
//! pounds, with an optional explicit minus sign, optional brackets around
//! negative amounts, and the colouring conventions of the ledger (green for
//! inflow, red for outflow, yellow for transfers).

use crate::digits::dec_chars;
use crate::digits::lemma_dec_chars_len_u64;
use crate::digits::two_digit_chars;
use crate::digits::u64_to_dec;
use crate::digits::u64_to_two_digits;
use crate::styled::ColouredString;
use crate::styled::Style;
use vstd::prelude::*;

verus! {

/// The magnitude of a signed amount.
pub open spec fn abs_pence(pence: i64) -> nat {
    if pence >= 0 {
        pence as nat
    } else {
        (-(pence as int)) as nat
    }
}

/// The exact characters of a formatted amount: an optional minus sign (only
/// when negative and `sign` is set), then either `£<pounds>.<pp>` or, when
/// negative and `brackets` is set, `(£<pounds>.<pp>)`, with exactly two
/// fraction digits.
pub open spec fn pound_chars(pence: i64, sign: bool, brackets: bool) -> Seq<char> {
    let neg = pence < 0;
    let mag = abs_pence(pence);
    (if neg && sign {
        seq!['-']
    } else {
        Seq::<char>::empty()
    }) + (if neg && brackets {
        seq!['(']
    } else {
        Seq::<char>::empty()
    }) + seq!['£'] + dec_chars(mag / 100) + seq!['.'] + two_digit_chars(mag % 100) + (if neg
        && brackets {
        seq![')']
    } else {
        Seq::<char>::empty()
    })
}

/// A formatted amount never exceeds 27 characters.
pub proof fn lemma_pound_chars_len(pence: i64, sign: bool, brackets: bool)
    ensures
        4 <= pound_chars(pence, sign, brackets).len() <= 27,
{
    let mag = abs_pence(pence);
    assert(mag <= 0x8000_0000_0000_0000);
    assert(mag / 100 <= u64::MAX as nat);
    lemma_dec_chars_len_u64((mag / 100) as u64);
    assert(((mag / 100) as u64) as nat == mag / 100);
    assert(1 <= dec_chars(mag / 100).len() <= 20);
    assert(two_digit_chars(mag % 100).len() == 2) by {
        let m = mag % 100;
        if m >= 10 {
            assert(dec_chars(m) == dec_chars(m / 10).push(crate::digits::digit_char(m % 10)));
            assert(dec_chars(m / 10) == seq![crate::digits::digit_char(m / 10)]);
        }
    }
}

fn pence_magnitude(pence: i64) -> (r: u64)
    ensures
        r as nat == abs_pence(pence),
{
    if pence >= 0 {
        pence as u64
    } else {
        let k = -(pence + 1);
        (k as u64) + 1
    }
}

/// Formats the amount, uncoloured. The result's visible width is exactly the
/// length of [`pound_chars`] — the pound sign occupies one column.
pub fn pence_to_pound(pence: i64, sign: bool, brackets: bool) -> (r: ColouredString)
    ensures
        r.wf(),
        r@ == pound_chars(pence, sign, brackets),
        r.text() == pound_chars(pence, sign, brackets),
{
    let mag = pence_magnitude(pence);
    let mut s = ColouredString::new();
    proof {
        reveal_strlit("-");
        reveal_strlit("(");
        reveal_strlit("£");
        reveal_strlit(".");
        reveal_strlit(")");
        lemma_pound_chars_len(pence, sign, brackets);
        lemma_dec_chars_len_u64(mag / 100);
    }
    if pence < 0 && sign {
        s.push_str("-");
    }
    if pence < 0 && brackets {
        s.push_str("(");
    }
    s.push_str("£");
    s.push_string(u64_to_dec(mag / 100));
    s.push_str(".");
    s.push_string(u64_to_two_digits(mag % 100));
    if pence < 0 && brackets {
        s.push_str(")");
    }
    proof {
        assert("-"@ =~= seq!['-']);
        assert("("@ =~= seq!['(']);
        assert("£"@ =~= seq!['£']);
        assert("."@ =~= seq!['.']);
        assert(")"@ =~= seq![')']);
        assert((mag / 100) as nat == abs_pence(pence) / 100);
        assert((mag % 100) as nat == abs_pence(pence) % 100);
        assert(s@ =~= pound_chars(pence, sign, brackets));
        assert(s.text() =~= pound_chars(pence, sign, brackets));
    }
    s
}

/// Formats the amount and colours it by sign: green for zero or inflow, red
/// for outflow.
pub fn pence_to_pound_colour(pence: i64, sign: bool, brackets: bool) -> (r: ColouredString)
    ensures
        r.wf(),
        r@ == pound_chars(pence, sign, brackets),
{
    let s = pence_to_pound(pence, sign, brackets);
    if pence >= 0 {
        s.apply_style(Style::Green)
    } else {
        s.apply_style(Style::Red)
    }
}

/// Formats the amount with a solid background by sign (green or red) and
/// black text, for emphasis.
pub fn pence_to_pound_colour_bg(pence: i64, sign: bool, brackets: bool) -> (r: ColouredString)
    ensures
        r.wf(),
        r@ == pound_chars(pence, sign, brackets),
{
    let s = pence_to_pound(pence, sign, brackets);
    if pence >= 0 {
        s.apply_style(Style::OnGreen).apply_style(Style::Black)
    } else {
        s.apply_style(Style::OnRed).apply_style(Style::Black)
    }
}

/// Formats a transfer amount: yellow, to mark money moving between accounts.
pub fn pence_to_pound_transfer(pence: i64, sign: bool, brackets: bool) -> (r: ColouredString)
    ensures
        r.wf(),
        r@ == pound_chars(pence, sign, brackets),
{
    pence_to_pound(pence, sign, brackets).apply_style(Style::Yellow)
}

} // verus!
