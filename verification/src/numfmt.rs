//! Decimal rendering of unsigned integers, used for palette indices, RGB
//! components and the SAUCE width/height line.

use vstd::prelude::*;

verus! {

/// The decimal digit character for a value 0-9.
pub open spec fn digit_char(d: nat) -> char {
    if d == 0 { '0' }
    else if d == 1 { '1' }
    else if d == 2 { '2' }
    else if d == 3 { '3' }
    else if d == 4 { '4' }
    else if d == 5 { '5' }
    else if d == 6 { '6' }
    else if d == 7 { '7' }
    else if d == 8 { '8' }
    else { '9' }
}

/// The decimal representation of `n`, most significant digit first.
pub open spec fn dec_chars(n: nat) -> Seq<char>
    decreases n,
{
    if n < 10 {
        seq![digit_char(n)]
    } else {
        dec_chars(n / 10) + seq![digit_char(n % 10)]
    }
}

/// Every character of a decimal representation is a digit.
pub proof fn lemma_dec_chars_digits(n: nat)
    ensures
        forall|i: int| 0 <= i < dec_chars(n).len() ==> ('0' <= #[trigger] dec_chars(n)[i]
            && dec_chars(n)[i] <= '9'),
    decreases n,
{
    if n < 10 {
        assert(dec_chars(n) =~= seq![digit_char(n)]);
    } else {
        lemma_dec_chars_digits(n / 10);
        assert(dec_chars(n) =~= dec_chars(n / 10) + seq![digit_char(n % 10)]);
        assert forall|i: int| 0 <= i < dec_chars(n).len() implies ('0'
            <= #[trigger] dec_chars(n)[i] && dec_chars(n)[i] <= '9') by {
            if i < dec_chars(n / 10).len() {
                assert(dec_chars(n)[i] == dec_chars(n / 10)[i]);
            } else {
                assert(dec_chars(n)[i] == digit_char(n % 10));
            }
        }
    }
}

fn digit_to_char(d: u32) -> (c: char)
    requires
        d < 10,
    ensures
        c == digit_char(d as nat),
{
    if d == 0 { '0' }
    else if d == 1 { '1' }
    else if d == 2 { '2' }
    else if d == 3 { '3' }
    else if d == 4 { '4' }
    else if d == 5 { '5' }
    else if d == 6 { '6' }
    else if d == 7 { '7' }
    else if d == 8 { '8' }
    else { '9' }
}

/// Render `n` in decimal as a vector of digit characters.
pub fn dec_digits(n: u32) -> (r: Vec<char>)
    ensures
        r@ == dec_chars(n as nat),
    decreases n,
{
    if n < 10 {
        let mut v: Vec<char> = Vec::new();
        v.push(digit_to_char(n));
        proof {
            assert(v@ =~= seq![digit_char(n as nat)]);
        }
        v
    } else {
        let mut v = dec_digits(n / 10);
        v.push(digit_to_char(n % 10));
        proof {
            assert(v@ =~= dec_chars((n / 10) as nat) + seq![digit_char((n % 10) as nat)]);
        }
        v
    }
}

} // verus!
