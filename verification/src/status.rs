//! The status line: battery and brightness percentage fields, the composed
//! one-line report, and the startup error message for a missing path.

use crate::clock::{format_timestamp, now_local, timestamp_display, Timestamp};
use crate::digits::{dec_digits, int_display, int_string};
use crate::reading::Reading;
use vstd::prelude::*;

verus! {

/// The glyph printed before the brightness field.
pub const BRIGHTNESS_EMOJI: &'static str = "\u{1F506}";

/// The glyph printed before the battery field.
pub const BATTERY_EMOJI: &'static str = "\u{1F50B}";

/// The field shown when a sensor value is unknown.
pub open spec fn unknown_display() -> Seq<char> {
    "???%"@
}

/// The battery field: the raw capacity value as a percentage, or the unknown
/// marker.
pub open spec fn battery_display(r: Reading) -> Seq<char> {
    match r {
        Reading::Known(i) => int_display(i as int).push('%'),
        Reading::Unknown => unknown_display(),
    }
}

/// The magnitude of `x`.
pub open spec fn abs_val(x: int) -> int {
    if x >= 0 {
        x
    } else {
        -x
    }
}

/// Division truncating toward zero, as machine integer division does.
pub open spec fn trunc_div(x: int, d: int) -> int {
    if (x < 0) == (d < 0) {
        abs_val(x) / abs_val(d)
    } else {
        -(abs_val(x) / abs_val(d))
    }
}

/// The brightness percentage for known readings: `a * 100 / m`, truncated.
pub open spec fn brightness_value(a: int, m: int) -> int {
    trunc_div(a * 100, m)
}

/// The brightness field: the percentage when both readings are known and the
/// maximum is not zero, and the unknown marker otherwise.
pub open spec fn brightness_display(actual: Reading, max: Reading) -> Seq<char> {
    match (actual, max) {
        (Reading::Known(a), Reading::Known(m)) => if m != 0 {
            int_display(brightness_value(a as int, m as int)).push('%')
        } else {
            unknown_display()
        },
        _ => unknown_display(),
    }
}

/// Renders the battery field.
pub fn battery_pct(r: &Reading) -> (s: String)
    ensures
        s@ == battery_display(*r),
{
    match r {
        Reading::Known(i) => {
            let mut s = int_string(*i as i64);
            s.append("%");
            proof {
                reveal_strlit("%");
                assert(s@ =~= battery_display(*r));
            }
            s
        },
        Reading::Unknown => String::from_str("???%"),
    }
}

/// Renders the brightness field.
pub fn brightness_pct(actual: &Reading, max: &Reading) -> (s: String)
    ensures
        s@ == brightness_display(*actual, *max),
{
    match (actual, max) {
        (Reading::Known(a), Reading::Known(m)) => {
            if *m == 0 {
                String::from_str("???%")
            } else {
                let prod: i64 = (*a as i64) * 100;
                let neg = (prod < 0) != (*m < 0);
                let num: u64 = if prod >= 0 {
                    prod as u64
                } else {
                    (-prod) as u64
                };
                let den: u64 = if *m >= 0 {
                    *m as u64
                } else {
                    (-(*m as i64)) as u64
                };
                let q: u64 = num / den;
                proof {
                    assert(num as int == abs_val(prod as int));
                    assert(den as int == abs_val(*m as int));
                    assert(q as int == abs_val(prod as int) / abs_val(*m as int));
                    assert(q <= num) by {
                        vstd::arithmetic::div_mod::lemma_div_is_ordered_by_denominator(
                            num as int,
                            1,
                            den as int,
                        );
                    }
                }
                let v: i64 = if neg {
                    -(q as i64)
                } else {
                    q as i64
                };
                proof {
                    assert(v as int == trunc_div(prod as int, *m as int));
                }
                let mut s = int_string(v);
                s.append("%");
                proof {
                    reveal_strlit("%");
                    assert(s@ =~= brightness_display(*actual, *max));
                }
                s
            }
        },
        _ => String::from_str("???%"),
    }
}

/// The whole status line: timestamp, brightness field, battery field.
pub open spec fn status_display(
    t: Timestamp,
    battery: Reading,
    actual: Reading,
    max: Reading,
) -> Seq<char> {
    timestamp_display(t) + " "@ + "\u{1F506}"@ + brightness_display(actual, max) + " "@
        + "\u{1F50B}"@ + battery_display(battery)
}

/// Composes the status line for a given instant.
pub fn format_status(t: &Timestamp, battery: &Reading, actual: &Reading, max: &Reading) -> (s:
    String)
    requires
        t.wf(),
    ensures
        s@ == status_display(*t, *battery, *actual, *max),
{
    let mut s = format_timestamp(t);
    s.append(" ");
    s.append(BRIGHTNESS_EMOJI);
    let b = brightness_pct(actual, max);
    s.append(b.as_str());
    s.append(" ");
    s.append(BATTERY_EMOJI);
    let bat = battery_pct(battery);
    s.append(bat.as_str());
    proof {
        assert(s@ =~= status_display(*t, *battery, *actual, *max));
    }
    s
}

/// Composes the status line for the local wall-clock time at the moment of
/// the call.
pub fn status_line(battery: &Reading, actual: &Reading, max: &Reading) -> (s: String)
    ensures
        exists|t: Timestamp| t.wf() && s@ == status_display(t, *battery, *actual, *max),
{
    let t = now_local();
    let s = format_status(&t, battery, actual, max);
    proof {
        assert(t.wf() && s@ == status_display(t, *battery, *actual, *max));
    }
    s
}

/// The startup error message for a watched path that does not exist.
pub open spec fn missing_path_display(p: Seq<char>) -> Seq<char> {
    "\""@ + p + "\" does not exist."@
}

/// Renders the startup error message naming a missing path.
pub fn missing_path_message(path: &str) -> (s: String)
    ensures
        s@ == missing_path_display(path@),
{
    let mut s = String::from_str("\"");
    s.append(path);
    s.append("\" does not exist.");
    s
}

/// With known readings and a positive maximum, the brightness percentage is
/// exactly the floor of `a * 100 / m`, rendered without a sign.
pub proof fn lemma_brightness_floor(a: i32, m: i32)
    requires
        0 <= a,
        0 < m,
    ensures
        0 <= brightness_value(a as int, m as int),
        brightness_value(a as int, m as int) == (a as int * 100) / (m as int),
        brightness_display(Reading::Known(a), Reading::Known(m)) == dec_digits(
            ((a as int * 100) / (m as int)) as nat,
        ).push('%'),
{
    let x = a as int * 100;
    assert(x >= 0);
    assert(x / (m as int) >= 0) by (nonlinear_arith)
        requires
            x >= 0,
            0 < m,
    ;
    assert(trunc_div(x, m as int) == x / (m as int));
}

/// When either brightness input is unknown, or the maximum is zero, the
/// brightness field is exactly the unknown marker.
pub proof fn lemma_brightness_unknown(actual: Reading, max: Reading)
    requires
        actual is Unknown || max is Unknown || max == Reading::Known(0i32),
    ensures
        brightness_display(actual, max) == unknown_display(),
{
}

/// When the battery reading is unknown, the battery field is exactly the
/// unknown marker.
pub proof fn lemma_battery_unknown()
    ensures
        battery_display(Reading::Unknown) == unknown_display(),
{
}

} // verus!
