//! Local wall-clock timestamps: reading the clock and rendering the
//! `YYYY-MM-DD HH:MM` field of the status line.

use crate::digits::{
    digit_char, is_digit, lemma_dec_digits_len, lemma_padded_digits_are_digits, padded_digits,
    four_digit_string, two_digit_string,
};
use vstd::prelude::*;

verus! {

/// A local wall-clock instant, to minute precision.
#[derive(Clone, Copy, Debug, PartialEq, Eq, Structural)]
pub struct Timestamp {
    pub year: i32,
    pub month: u8,
    pub day: u8,
    pub hour: u8,
    pub minute: u8,
}

impl Timestamp {
    /// The fields form a calendar time: month, day, hour and minute in range.
    pub open spec fn wf(self) -> bool {
        &&& 1 <= self.month <= 12
        &&& 1 <= self.day <= 31
        &&& self.hour <= 23
        &&& self.minute <= 59
    }
}

/// The year field: at least four digits, with a leading minus sign for years
/// before the common era.
pub open spec fn year_digits(y: int) -> Seq<char> {
    if y >= 0 {
        padded_digits(y as nat, 4)
    } else {
        seq!['-'] + padded_digits((-y) as nat, 4)
    }
}

/// The rendering of a timestamp: `YYYY-MM-DD HH:MM`.
pub open spec fn timestamp_display(t: Timestamp) -> Seq<char> {
    year_digits(t.year as int) + seq!['-'] + padded_digits(t.month as nat, 2) + seq!['-']
        + padded_digits(t.day as nat, 2) + seq![' '] + padded_digits(t.hour as nat, 2)
        + seq![':'] + padded_digits(t.minute as nat, 2)
}

/// Relies on chrono's `Local::now` for the current local wall-clock time, and
/// on its `Datelike` and `Timelike` accessors, which document that the month
/// ranges over 1 to 12, the day over 1 to 31, the hour over 0 to 23 and the
/// minute over 0 to 59. Nothing more is assumed of a clock reading.
#[verifier::external_body]
pub(crate) fn now_local() -> (t: Timestamp)
    ensures
        t.wf(),
{
    let now = chrono::Local::now();
    Timestamp {
        year: chrono::Datelike::year(&now),
        month: chrono::Datelike::month(&now) as u8,
        day: chrono::Datelike::day(&now) as u8,
        hour: chrono::Timelike::hour(&now) as u8,
        minute: chrono::Timelike::minute(&now) as u8,
    }
}

/// Renders a timestamp as `YYYY-MM-DD HH:MM`.
pub fn format_timestamp(t: &Timestamp) -> (s: String)
    requires
        t.wf(),
    ensures
        s@ == timestamp_display(*t),
{
    let year: u64 = if t.year >= 0 {
        t.year as u64
    } else {
        (-(t.year as i64)) as u64
    };
    let mut s = if t.year >= 0 {
        String::new()
    } else {
        String::from_str("-")
    };
    proof {
        reveal_strlit("-");
    }
    let y = four_digit_string(year);
    s.append(y.as_str());
    s.append("-");
    let m = two_digit_string(t.month as u64);
    s.append(m.as_str());
    s.append("-");
    let d = two_digit_string(t.day as u64);
    s.append(d.as_str());
    s.append(" ");
    proof {
        reveal_strlit(" ");
    }
    let h = two_digit_string(t.hour as u64);
    s.append(h.as_str());
    s.append(":");
    proof {
        reveal_strlit(":");
    }
    let mi = two_digit_string(t.minute as u64);
    s.append(mi.as_str());
    proof {
        assert(s@ =~= timestamp_display(*t));
    }
    s
}

/// The sixteen-character shape `YYYY-MM-DD HH:MM`: digits everywhere but the
/// two dashes, the space and the colon.
pub open spec fn timestamp_shaped(s: Seq<char>) -> bool {
    &&& s.len() == 16
    &&& s[4] == '-'
    &&& s[7] == '-'
    &&& s[10] == ' '
    &&& s[13] == ':'
    &&& forall|i: int|
        0 <= i < 16 && i != 4 && i != 7 && i != 10 && i != 13 ==> is_digit(#[trigger] s[i])
}

/// The printed timestamp always matches the format `YYYY-MM-DD HH:MM`, for
/// every calendar time whose year has four digits.
pub proof fn lemma_timestamp_format(t: Timestamp)
    requires
        t.wf(),
        0 <= t.year <= 9999,
    ensures
        timestamp_shaped(timestamp_display(t)),
{
    let s = timestamp_display(t);
    lemma_padded_digits_are_digits(t.year as nat, 4);
    lemma_padded_digits_are_digits(t.month as nat, 2);
    lemma_padded_digits_are_digits(t.day as nat, 2);
    lemma_padded_digits_are_digits(t.hour as nat, 2);
    lemma_padded_digits_are_digits(t.minute as nat, 2);
    lemma_dec_digits_len(t.year as nat);
    lemma_dec_digits_len(t.month as nat);
    lemma_dec_digits_len(t.day as nat);
    lemma_dec_digits_len(t.hour as nat);
    lemma_dec_digits_len(t.minute as nat);
    assert(padded_digits(t.year as nat, 4).len() == 4);
    assert(padded_digits(t.month as nat, 2).len() == 2);
    assert(padded_digits(t.day as nat, 2).len() == 2);
    assert(padded_digits(t.hour as nat, 2).len() == 2);
    assert(padded_digits(t.minute as nat, 2).len() == 2);
    assert(s.len() == 16);
    assert forall|i: int|
        0 <= i < 16 && i != 4 && i != 7 && i != 10 && i != 13 implies is_digit(
        #[trigger] s[i],
    ) by {
        if i < 4 {
            assert(s[i] == padded_digits(t.year as nat, 4)[i]);
        } else if i < 7 {
            assert(s[i] == padded_digits(t.month as nat, 2)[i - 5]);
        } else if i < 10 {
            assert(s[i] == padded_digits(t.day as nat, 2)[i - 8]);
        } else if i < 13 {
            assert(s[i] == padded_digits(t.hour as nat, 2)[i - 11]);
        } else {
            assert(s[i] == padded_digits(t.minute as nat, 2)[i - 14]);
        }
    }
}

} // verus!
