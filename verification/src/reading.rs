//! Sensor readings: a known integer or an unknown marker, and the verified
//! parser that turns the text of a sysfs file into a reading.

use crate::digits::is_digit;
use vstd::prelude::*;

verus! {

/// One sensor value: a known integer, or unknown when the file was missing
/// or its contents did not parse.
#[derive(Clone, Copy, Debug, PartialEq, Eq, Structural)]
pub enum Reading {
    Known(i32),
    Unknown,
}

/// The characters that surrounding whitespace trimming removes: the Unicode
/// white-space code points.
pub open spec fn is_space(c: char) -> bool {
    ||| c == '\u{0009}'
    ||| c == '\u{000A}'
    ||| c == '\u{000B}'
    ||| c == '\u{000C}'
    ||| c == '\u{000D}'
    ||| c == ' '
    ||| c == '\u{0085}'
    ||| c == '\u{00A0}'
    ||| c == '\u{1680}'
    ||| ('\u{2000}' <= c && c <= '\u{200A}')
    ||| c == '\u{2028}'
    ||| c == '\u{2029}'
    ||| c == '\u{202F}'
    ||| c == '\u{205F}'
    ||| c == '\u{3000}'
}

/// `s` without its leading whitespace.
pub open spec fn trim_front(s: Seq<char>) -> Seq<char>
    decreases s.len(),
{
    if s.len() > 0 && is_space(s[0]) {
        trim_front(s.drop_first())
    } else {
        s
    }
}

/// `s` without its trailing whitespace.
pub open spec fn trim_back(s: Seq<char>) -> Seq<char>
    decreases s.len(),
{
    if s.len() > 0 && is_space(s.last()) {
        trim_back(s.drop_last())
    } else {
        s
    }
}

/// `s` without leading and trailing whitespace.
pub open spec fn trimmed(s: Seq<char>) -> Seq<char> {
    trim_back(trim_front(s))
}

/// The value of a decimal digit character.
pub open spec fn digit_val(c: char) -> int {
    c as int - 48
}

/// Every character is a decimal digit.
pub open spec fn all_digits(s: Seq<char>) -> bool {
    forall|i: int| 0 <= i < s.len() ==> is_digit(#[trigger] s[i])
}

/// The value of a digit string, most significant digit first.
pub open spec fn digits_val(s: Seq<char>) -> int
    decreases s.len(),
{
    if s.len() == 0 {
        0
    } else {
        digits_val(s.drop_last()) * 10 + digit_val(s.last())
    }
}

/// Whether `s` is an integer literal: an optional sign followed by at least
/// one digit, and nothing else.
pub open spec fn int_literal_ok(s: Seq<char>) -> bool {
    if s.len() == 0 {
        false
    } else if s[0] == '+' || s[0] == '-' {
        s.len() > 1 && all_digits(s.drop_first())
    } else {
        all_digits(s)
    }
}

/// The signed value of an integer literal.
pub open spec fn int_literal_val(s: Seq<char>) -> int {
    if s[0] == '-' {
        -digits_val(s.drop_first())
    } else if s[0] == '+' {
        digits_val(s.drop_first())
    } else {
        digits_val(s)
    }
}

/// What parsing file contents yields: the value of the trimmed text when it
/// is an integer literal in `i32` range, and `Unknown` otherwise.
pub open spec fn parsed_reading(s: Seq<char>) -> Reading {
    let t = trimmed(s);
    if int_literal_ok(t) && i32::MIN <= int_literal_val(t) <= i32::MAX {
        Reading::Known(int_literal_val(t) as i32)
    } else {
        Reading::Unknown
    }
}

/// A digit string's value never goes down as digits are appended.
proof fn lemma_digits_val_nonneg(s: Seq<char>)
    requires
        all_digits(s),
    ensures
        digits_val(s) >= 0,
    decreases s.len(),
{
    if s.len() > 0 {
        assert(is_digit(s[s.len() - 1]));
        assert(all_digits(s.drop_last())) by {
            assert(forall|i: int|
                0 <= i < s.len() - 1 ==> #[trigger] s.drop_last()[i] == s[i]);
        }
        lemma_digits_val_nonneg(s.drop_last());
    }
}

/// Whether `c` is trimmed away, decided in executable code.
fn is_space_exec(c: char) -> (r: bool)
    ensures
        r == is_space(c),
{
    c == '\u{0009}' || c == '\u{000A}' || c == '\u{000B}' || c == '\u{000C}' || c == '\u{000D}'
        || c == ' ' || c == '\u{0085}' || c == '\u{00A0}' || c == '\u{1680}' || ('\u{2000}' <= c
        && c <= '\u{200A}') || c == '\u{2028}' || c == '\u{2029}' || c == '\u{202F}'
        || c == '\u{205F}' || c == '\u{3000}'
}

/// Parses the contents of a sensor file: whitespace is trimmed, the rest must
/// be a decimal integer with an optional sign, in `i32` range.
pub fn parse_reading(s: &str) -> (r: Reading)
    ensures
        r == parsed_reading(s@),
{
    let n = s.unicode_len();
    let mut start: usize = 0;
    proof {
        assert(s@.subrange(0, n as int) =~= s@);
    }
    while start < n && is_space_exec(s.get_char(start))
        invariant
            start <= n,
            n == s@.len(),
            trim_front(s@) == trim_front(s@.subrange(start as int, n as int)),
        decreases n - start,
    {
        proof {
            assert(s@.subrange(start as int, n as int).drop_first() =~= s@.subrange(
                start as int + 1,
                n as int,
            ));
        }
        start += 1;
    }
    proof {
        assert(trim_front(s@) == s@.subrange(start as int, n as int));
    }
    let mut end: usize = n;
    while end > start && is_space_exec(s.get_char(end - 1))
        invariant
            start <= end <= n,
            n == s@.len(),
            trim_front(s@) == s@.subrange(start as int, n as int),
            trim_back(s@.subrange(start as int, n as int)) == trim_back(
                s@.subrange(start as int, end as int),
            ),
        decreases end,
    {
        proof {
            assert(s@.subrange(start as int, end as int).drop_last() =~= s@.subrange(
                start as int,
                end as int - 1,
            ));
        }
        end -= 1;
    }
    let ghost t = trimmed(s@);
    proof {
        assert(t == s@.subrange(start as int, end as int));
    }
    if start == end {
        return Reading::Unknown;
    }
    let c0 = s.get_char(start);
    let neg = c0 == '-';
    let has_sign = neg || c0 == '+';
    let dstart: usize = if has_sign {
        start + 1
    } else {
        start
    };
    let ghost d = s@.subrange(dstart as int, end as int);
    proof {
        if has_sign {
            assert(t.drop_first() =~= d);
        }
    }
    if dstart == end {
        // a bare sign: not a literal
        return Reading::Unknown;
    }
    let mut i: usize = dstart;
    let mut acc: i64 = 0;
    let mut over = false;
    proof {
        assert(s@.subrange(dstart as int, dstart as int) =~= Seq::<char>::empty());
    }
    while i < end
        invariant
            start < end,
            dstart <= i <= end <= n,
            n == s@.len(),
            t == trimmed(s@),
            t == s@.subrange(start as int, end as int),
            c0 == s@[start as int],
            neg == (c0 == '-'),
            has_sign == (neg || c0 == '+'),
            dstart as int == if has_sign {
                start + 1
            } else {
                start as int
            },
            has_sign ==> t.drop_first() == d,
            d == s@.subrange(dstart as int, end as int),
            all_digits(s@.subrange(dstart as int, i as int)),
            !over ==> 0 <= acc <= 2147483648 && acc == digits_val(
                s@.subrange(dstart as int, i as int),
            ),
            over ==> digits_val(s@.subrange(dstart as int, i as int)) > 2147483648,
        decreases end - i,
    {
        let ghost pre = s@.subrange(dstart as int, i as int);
        let c = s.get_char(i);
        if !('0' <= c && c <= '9') {
            proof {
                assert(t.len() > 0);
                assert(t[0] == c0);
                assert(d[i - dstart] == c);
                assert(!all_digits(d));
                if has_sign {
                    assert(t.drop_first() == d);
                    assert(!int_literal_ok(t));
                } else {
                    assert(t =~= d);
                    assert(!int_literal_ok(t));
                }
            }
            return Reading::Unknown;
        }
        let dv: i64 = (c as u32) as i64 - 48;
        let ghost cur = s@.subrange(dstart as int, i as int + 1);
        proof {
            assert(cur.drop_last() =~= pre);
            assert(cur.last() == c);
            assert(digits_val(cur) == digits_val(pre) * 10 + digit_val(c));
            assert(0 <= dv <= 9);
            assert(dv == digit_val(c));
            assert(forall|j: int| 0 <= j < cur.len() ==> #[trigger] cur[j] == d[j]);
            assert(all_digits(cur));
        }
        if over {
            proof {
                assert(digits_val(pre) * 10 >= digits_val(pre)) by {
                    assert(digits_val(pre) > 0);
                }
            }
        } else {
            let next = acc * 10 + dv;
            if next > 2147483648 {
                over = true;
            } else {
                acc = next;
            }
        }
        i += 1;
    }
    proof {
        assert(s@.subrange(dstart as int, end as int) == d);
        assert(all_digits(d));
        if has_sign {
            assert(int_literal_ok(t));
        } else {
            assert(t =~= d);
            assert(int_literal_ok(t));
        }
        if neg {
            assert(int_literal_val(t) == -digits_val(d));
        } else if has_sign {
            assert(int_literal_val(t) == digits_val(d));
        } else {
            assert(int_literal_val(t) == digits_val(d));
        }
        lemma_digits_val_nonneg(d);
    }
    if over {
        // magnitude above 2^31: out of range for either sign
        return Reading::Unknown;
    }
    if neg {
        let v: i64 = -acc;
        proof {
            assert(i32::MIN <= v <= i32::MAX);
        }
        Reading::Known(v as i32)
    } else {
        if acc > 2147483647 {
            return Reading::Unknown;
        }
        Reading::Known(acc as i32)
    }
}

/// Turns what was read from a sensor file into a reading: a missing or
/// unreadable file is `Unknown`, anything else is parsed.
pub fn reading_from_contents(contents: Option<&str>) -> (r: Reading)
    ensures
        r == match contents {
            Some(s) => parsed_reading(s@),
            None => Reading::Unknown,
        },
{
    match contents {
        Some(s) => parse_reading(s),
        None => Reading::Unknown,
    }
}

} // verus!
