//! Sensor values as text for the LCD.

use vstd::prelude::*;

verus! {

/// The character of the decimal digit `d` (0 to 9).
pub open spec fn digit_char(d: nat) -> char {
    (48 + d) as char
}

/// The decimal representation of `n`: its digits, most significant first,
/// without sign or leading zeros ("0" for zero).
pub open spec fn decimal(n: nat) -> Seq<char>
    decreases n,
{
    if n < 10 {
        seq![digit_char(n)]
    } else {
        decimal(n / 10).push(digit_char(n % 10))
    }
}

/// `itoa::Buffer::format` on a `u32`: the decimal representation of `value`.
///
/// Trusted: itoa documents that `format` prints the integer's string
/// representation, which for an unsigned integer is its decimal digits.
#[verifier::external_body]
fn itoa_decimal(value: u32) -> (s: String)
    ensures
        s@ == decimal(value as nat),
{
    let mut buffer = itoa::Buffer::new();
    buffer.format(value).to_string()
}

/// The text shown for a sensor reading: its decimal digits.
pub fn reading_text(value: u32) -> (s: String)
    ensures
        s@ == decimal(value as nat),
{
    itoa_decimal(value)
}

/// A decimal representation is never empty and has only digit characters.
pub proof fn lemma_decimal_digits(n: nat)
    ensures
        decimal(n).len() >= 1,
        forall|i: int| 0 <= i < decimal(n).len() ==> '0' <= #[trigger] decimal(n)[i] <= '9',
    decreases n,
{
    if n >= 10 {
        lemma_decimal_digits(n / 10);
        assert forall|i: int| 0 <= i < decimal(n).len() implies '0' <= #[trigger] decimal(n)[i] <= '9' by {
            if i < decimal(n / 10).len() {
                assert(decimal(n)[i] == decimal(n / 10)[i]);
            }
        }
    }
}

/// The number that a string of decimal digits spells, most significant
/// digit first.
pub open spec fn digits_value(ds: Seq<char>) -> int
    decreases ds.len(),
{
    if ds.len() == 0 {
        0
    } else {
        10 * digits_value(ds.drop_last()) + (ds.last() as int - 48)
    }
}

/// Reading the decimal text back gives the number, and the text has no
/// leading zero.
pub proof fn lemma_decimal_round_trip(n: nat)
    ensures
        digits_value(decimal(n)) == n,
        n > 0 ==> decimal(n)[0] != '0',
    decreases n,
{
    if n < 10 {
        assert(digit_char(n) as int == 48 + n);
        assert(decimal(n).drop_last() =~= Seq::<char>::empty());
        assert(digits_value(decimal(n)) == 10 * digits_value(Seq::<char>::empty()) + (decimal(n).last() as int
            - 48));
    } else {
        lemma_decimal_round_trip(n / 10);
        assert(digit_char(n % 10) as int == 48 + n % 10);
        assert(decimal(n).drop_last() =~= decimal(n / 10));
        assert(decimal(n)[0] == decimal(n / 10)[0]);
        assert(decimal(n).last() == digit_char(n % 10));
        assert(digits_value(decimal(n)) == 10 * digits_value(decimal(n / 10)) + (decimal(n).last() as int
            - 48));
        assert(n == 10 * (n / 10) + n % 10);
    }
}

} // verus!
