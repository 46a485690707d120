//! Decimal rendering of unsigned integers.
use vstd::prelude::*;

verus! {

/// The ASCII digit for `d`, for `d` below ten.
pub open spec fn digit_char(d: nat) -> char {
    if d == 0 { '0' }
    else if d == 1 { '1' }
    else if d == 2 { '2' }
    else if d == 3 { '3' }
    else if d == 4 { '4' }
    else if d == 5 { '5' }
    else if d == 6 { '6' }
    else if d == 7 { '7' }
    else if d == 8 { '8' }
    else { '9' }
}

/// The numeric value of an ASCII digit.
pub open spec fn digit_value(c: char) -> nat {
    ((c as u32) - ('0' as u32)) as nat
}

/// Whether `c` is one of the ASCII digits `0` to `9`.
pub open spec fn is_digit(c: char) -> bool {
    '0' <= c && c <= '9'
}

/// The decimal representation of `n`: its digits, most significant first,
/// with no leading zero (and the single digit `0` for zero).
pub open spec fn decimal_spec(n: nat) -> Seq<char>
    decreases n,
{
    if n < 10 {
        seq![digit_char(n)]
    } else {
        decimal_spec(n / 10).push(digit_char(n % 10))
    }
}

/// The number that a sequence of decimal digits denotes.
pub open spec fn digits_value(s: Seq<char>) -> nat
    decreases s.len(),
{
    if s.len() == 0 {
        0
    } else {
        digits_value(s.drop_last()) * 10 + digit_value(s.last())
    }
}

/// One digit as a one-character string.
fn digit_text(d: u64) -> (s: &'static str)
    requires
        d < 10,
    ensures
        s@ == seq![digit_char(d as nat)],
{
    if d == 0 {
        proof { reveal_strlit("0"); }
        "0"
    } else if d == 1 {
        proof { reveal_strlit("1"); }
        "1"
    } else if d == 2 {
        proof { reveal_strlit("2"); }
        "2"
    } else if d == 3 {
        proof { reveal_strlit("3"); }
        "3"
    } else if d == 4 {
        proof { reveal_strlit("4"); }
        "4"
    } else if d == 5 {
        proof { reveal_strlit("5"); }
        "5"
    } else if d == 6 {
        proof { reveal_strlit("6"); }
        "6"
    } else if d == 7 {
        proof { reveal_strlit("7"); }
        "7"
    } else if d == 8 {
        proof { reveal_strlit("8"); }
        "8"
    } else {
        proof { reveal_strlit("9"); }
        "9"
    }
}

/// Renders `n` in decimal, as `format!("{}", n)` does.
pub fn decimal(n: u64) -> (s: String)
    ensures
        s@ == decimal_spec(n as nat),
        s@.len() >= 1,
        forall|i: int| 0 <= i < s@.len() ==> '0' <= #[trigger] s@[i] <= '9',
        digits_value(s@) == n,
        s@[0] == '0' ==> n == 0,
    decreases n,
{
    proof { lemma_decimal_denotes(n as nat); }
    let mut s = if n >= 10 {
        decimal(n / 10)
    } else {
        String::new()
    };
    s.append(digit_text(n % 10));
    proof {
        if n < 10 {
            assert(s@ =~= decimal_spec(n as nat));
        }
    }
    s
}

/// Law: the decimal representation of `n` is made of digits only, denotes
/// `n`, and starts with `0` only when it is the single digit of zero.
pub proof fn lemma_decimal_denotes(n: nat)
    ensures
        decimal_spec(n).len() >= 1,
        forall|i: int| 0 <= i < decimal_spec(n).len() ==> is_digit(#[trigger] decimal_spec(n)[i]),
        digits_value(decimal_spec(n)) == n,
        decimal_spec(n)[0] == '0' ==> n == 0,
    decreases n,
{
    if n < 10 {
        let s = decimal_spec(n);
        assert(s.drop_last() =~= Seq::<char>::empty());
        assert(digit_value(digit_char(n)) == n);
        assert(digits_value(s.drop_last()) == 0);
        assert(digits_value(s) == digits_value(s.drop_last()) * 10 + digit_value(s.last()));
    } else {
        lemma_decimal_denotes(n / 10);
        let s = decimal_spec(n);
        let p = decimal_spec(n / 10);
        assert(s.drop_last() =~= p);
        assert(s[0] == p[0]);
        assert(digit_value(digit_char(n % 10)) == n % 10);
        assert(s.last() == digit_char(n % 10));
        assert(digits_value(s) == digits_value(p) * 10 + digit_value(s.last()));
        assert(n == (n / 10) * 10 + n % 10);
        assert(forall|i: int| 0 <= i < s.len() ==> is_digit(#[trigger] s[i])) by {
            assert forall|i: int| 0 <= i < s.len() implies is_digit(#[trigger] s[i]) by {
                if i < p.len() {
                    assert(s[i] == p[i]);
                }
            }
        }
    }
}

} // verus!
