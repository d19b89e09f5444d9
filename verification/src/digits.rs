//! Decimal rendering of integers as character sequences, and the verified
//! string builders behind every numeric field of the status line.

use vstd::prelude::*;

verus! {

/// The character for a single decimal digit value.
pub open spec fn digit_char(d: int) -> char {
    if d == 0 {
        '0'
    } else if d == 1 {
        '1'
    } else if d == 2 {
        '2'
    } else if d == 3 {
        '3'
    } else if d == 4 {
        '4'
    } else if d == 5 {
        '5'
    } else if d == 6 {
        '6'
    } else if d == 7 {
        '7'
    } else if d == 8 {
        '8'
    } else {
        '9'
    }
}

/// The decimal digits of `n`, most significant first, without leading zeros.
pub open spec fn dec_digits(n: nat) -> Seq<char>
    decreases n,
{
    if n < 10 {
        seq![digit_char(n as int)]
    } else {
        dec_digits(n / 10).push(digit_char((n % 10) as int))
    }
}

/// The decimal rendering of `i`, with a leading minus sign when negative.
pub open spec fn int_display(i: int) -> Seq<char> {
    if i >= 0 {
        dec_digits(i as nat)
    } else {
        seq!['-'] + dec_digits((-i) as nat)
    }
}

/// The digits of `n`, zero-padded on the left to at least `w` characters.
pub open spec fn padded_digits(n: nat, w: nat) -> Seq<char> {
    let d = dec_digits(n);
    if d.len() >= w {
        d
    } else {
        Seq::new((w - d.len()) as nat, |i: int| '0') + d
    }
}

/// `'0'` through `'9'`.
pub open spec fn is_digit(c: char) -> bool {
    '0' <= c && c <= '9'
}

/// How many digits a number has: one for each decade it reaches.
pub proof fn lemma_dec_digits_len(n: nat)
    ensures
        dec_digits(n).len() >= 1,
        n < 10 ==> dec_digits(n).len() == 1,
        10 <= n < 100 ==> dec_digits(n).len() == 2,
        100 <= n < 1000 ==> dec_digits(n).len() == 3,
        1000 <= n < 10000 ==> dec_digits(n).len() == 4,
        1000 <= n ==> dec_digits(n).len() >= 4,
    decreases n,
{
    if n >= 10 {
        lemma_dec_digits_len(n / 10);
    }
}

/// Every character of a decimal rendering is a digit.
pub proof fn lemma_dec_digits_are_digits(n: nat)
    ensures
        forall|i: int| 0 <= i < dec_digits(n).len() ==> is_digit(#[trigger] dec_digits(n)[i]),
    decreases n,
{
    if n < 10 {
        assert(is_digit(dec_digits(n)[0]));
    } else {
        lemma_dec_digits_are_digits(n / 10);
        assert forall|i: int| 0 <= i < dec_digits(n).len() implies is_digit(
            #[trigger] dec_digits(n)[i],
        ) by {
            if i < dec_digits(n).len() - 1 {
                assert(dec_digits(n)[i] == dec_digits(n / 10)[i]);
            } else {
                assert(dec_digits(n)[i] == digit_char((n % 10) as int));
            }
        }
    }
}

/// Every character of a zero-padded rendering is a digit.
pub proof fn lemma_padded_digits_are_digits(n: nat, w: nat)
    ensures
        forall|i: int| 0 <= i < padded_digits(n, w).len()
            ==> is_digit(#[trigger] padded_digits(n, w)[i]),
        padded_digits(n, w).len() >= w,
{
    lemma_dec_digits_are_digits(n);
    lemma_dec_digits_len(n);
}

/// Appends the character for one decimal digit.
fn append_digit(s: &mut String, d: u64)
    requires
        d < 10,
    ensures
        final(s)@ == old(s)@.push(digit_char(d as int)),
{
    let t: &str = match d {
        0 => "0",
        1 => "1",
        2 => "2",
        3 => "3",
        4 => "4",
        5 => "5",
        6 => "6",
        7 => "7",
        8 => "8",
        _ => "9",
    };
    proof {
        reveal_strlit("0");
        reveal_strlit("1");
        reveal_strlit("2");
        reveal_strlit("3");
        reveal_strlit("4");
        reveal_strlit("5");
        reveal_strlit("6");
        reveal_strlit("7");
        reveal_strlit("8");
        reveal_strlit("9");
        assert(t@ =~= seq![digit_char(d as int)]);
    }
    s.append(t);
    proof {
        assert(s@ =~= old(s)@.push(digit_char(d as int)));
    }
}

/// The decimal digits of `n` as a string.
pub fn u64_string(n: u64) -> (s: String)
    ensures
        s@ == dec_digits(n as nat),
    decreases n,
{
    if n < 10 {
        let mut s = String::new();
        append_digit(&mut s, n);
        proof {
            assert(s@ =~= dec_digits(n as nat));
        }
        s
    } else {
        let mut s = u64_string(n / 10);
        append_digit(&mut s, n % 10);
        proof {
            assert(s@ =~= dec_digits(n as nat));
        }
        s
    }
}

/// The decimal rendering of `i`, minus sign included when negative.
pub fn int_string(i: i64) -> (s: String)
    ensures
        s@ == int_display(i as int),
{
    if i >= 0 {
        u64_string(i as u64)
    } else {
        let m: u64 = (-(i as i128)) as u64;
        proof {
            assert(m as int == -(i as int));
        }
        let mut s = String::from_str("-");
        let d = u64_string(m);
        s.append(d.as_str());
        proof {
            reveal_strlit("-");
            assert(s@ =~= int_display(i as int));
        }
        s
    }
}

/// `n` zero-padded to at least two digits, as in a month or minute field.
pub fn two_digit_string(n: u64) -> (s: String)
    requires
        n < 100,
    ensures
        s@ == padded_digits(n as nat, 2),
{
    proof {
        lemma_dec_digits_len(n as nat);
    }
    if n < 10 {
        let mut s = String::from_str("0");
        let d = u64_string(n);
        s.append(d.as_str());
        proof {
            reveal_strlit("0");
            assert(s@ =~= padded_digits(n as nat, 2));
        }
        s
    } else {
        let s = u64_string(n);
        proof {
            assert(s@ =~= padded_digits(n as nat, 2));
        }
        s
    }
}

/// `n` zero-padded to at least four digits, as in a year field.
pub fn four_digit_string(n: u64) -> (s: String)
    ensures
        s@ == padded_digits(n as nat, 4),
{
    proof {
        lemma_dec_digits_len(n as nat);
    }
    let mut s = if n < 10 {
        String::from_str("000")
    } else if n < 100 {
        String::from_str("00")
    } else if n < 1000 {
        String::from_str("0")
    } else {
        String::new()
    };
    proof {
        reveal_strlit("000");
        reveal_strlit("00");
        reveal_strlit("0");
    }
    let d = u64_string(n);
    s.append(d.as_str());
    proof {
        assert(s@ =~= padded_digits(n as nat, 4));
    }
    s
}

} // verus!
