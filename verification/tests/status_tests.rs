use basic_status_message::clock::Timestamp;
use basic_status_message::reading::{parse_reading, reading_from_contents, Reading};
use basic_status_message::sched::{cycle_plan, wait_ms, WakeOutcome};
use basic_status_message::status::{
    battery_pct, brightness_pct, format_status, missing_path_message, status_line,
    BATTERY_EMOJI, BRIGHTNESS_EMOJI,
};

#[test]
fn parse_plain_integer() {
    assert_eq!(parse_reading("57"), Reading::Known(57));
    assert_eq!(parse_reading("0"), Reading::Known(0));
    assert_eq!(parse_reading("007"), Reading::Known(7));
}

#[test]
fn parse_trims_whitespace() {
    assert_eq!(parse_reading(" 42\n"), Reading::Known(42));
    assert_eq!(parse_reading("\t\r\n 42 \t"), Reading::Known(42));
    assert_eq!(parse_reading("\u{2003}42\u{2003}"), Reading::Known(42));
}

#[test]
fn parse_signs() {
    assert_eq!(parse_reading("+7"), Reading::Known(7));
    assert_eq!(parse_reading("-13"), Reading::Known(-13));
    assert_eq!(parse_reading("-0"), Reading::Known(0));
}

#[test]
fn parse_rejects_non_numeric() {
    assert_eq!(parse_reading(""), Reading::Unknown);
    assert_eq!(parse_reading("   "), Reading::Unknown);
    assert_eq!(parse_reading("abc"), Reading::Unknown);
    assert_eq!(parse_reading("12a"), Reading::Unknown);
    assert_eq!(parse_reading("1 2"), Reading::Unknown);
    assert_eq!(parse_reading("+"), Reading::Unknown);
    assert_eq!(parse_reading("-"), Reading::Unknown);
    assert_eq!(parse_reading("--1"), Reading::Unknown);
}

#[test]
fn parse_at_i32_bounds() {
    assert_eq!(parse_reading("2147483647"), Reading::Known(i32::MAX));
    assert_eq!(parse_reading("2147483648"), Reading::Unknown);
    assert_eq!(parse_reading("-2147483648"), Reading::Known(i32::MIN));
    assert_eq!(parse_reading("-2147483649"), Reading::Unknown);
    assert_eq!(parse_reading("99999999999999999999"), Reading::Unknown);
    assert_eq!(parse_reading("0000000000000000042"), Reading::Known(42));
}

#[test]
fn missing_contents_are_unknown() {
    assert_eq!(reading_from_contents(None), Reading::Unknown);
    assert_eq!(reading_from_contents(Some("57")), Reading::Known(57));
}

#[test]
fn battery_field() {
    assert_eq!(battery_pct(&Reading::Known(57)), "57%");
    assert_eq!(battery_pct(&Reading::Known(0)), "0%");
    assert_eq!(battery_pct(&Reading::Known(-5)), "-5%");
    assert_eq!(battery_pct(&Reading::Unknown), "???%");
}

#[test]
fn brightness_field_is_floor_of_ratio() {
    assert_eq!(
        brightness_pct(&Reading::Known(120), &Reading::Known(240)),
        "50%"
    );
    assert_eq!(brightness_pct(&Reading::Known(1), &Reading::Known(3)), "33%");
    assert_eq!(
        brightness_pct(&Reading::Known(240), &Reading::Known(240)),
        "100%"
    );
    assert_eq!(brightness_pct(&Reading::Known(0), &Reading::Known(240)), "0%");
}

#[test]
fn brightness_field_truncates_toward_zero() {
    assert_eq!(
        brightness_pct(&Reading::Known(-50), &Reading::Known(100)),
        "-50%"
    );
    assert_eq!(
        brightness_pct(&Reading::Known(1), &Reading::Known(-2)),
        "-50%"
    );
}

#[test]
fn brightness_field_unknown_cases() {
    assert_eq!(
        brightness_pct(&Reading::Unknown, &Reading::Known(240)),
        "???%"
    );
    assert_eq!(
        brightness_pct(&Reading::Known(120), &Reading::Unknown),
        "???%"
    );
    assert_eq!(brightness_pct(&Reading::Unknown, &Reading::Unknown), "???%");
    assert_eq!(
        brightness_pct(&Reading::Known(120), &Reading::Known(0)),
        "???%"
    );
}

#[test]
fn timestamp_is_zero_padded() {
    let t = Timestamp { year: 2026, month: 1, day: 5, hour: 7, minute: 3 };
    assert_eq!(
        basic_status_message::clock::format_timestamp(&t),
        "2026-01-05 07:03"
    );
    let t = Timestamp { year: 2026, month: 10, day: 12, hour: 23, minute: 59 };
    assert_eq!(
        basic_status_message::clock::format_timestamp(&t),
        "2026-10-12 23:59"
    );
    let t = Timestamp { year: 33, month: 12, day: 31, hour: 0, minute: 0 };
    assert_eq!(
        basic_status_message::clock::format_timestamp(&t),
        "0033-12-31 00:00"
    );
}

#[test]
fn wait_targets_next_minute_plus_skew() {
    assert_eq!(wait_ms(0), 60001);
    assert_eq!(wait_ms(59999), 2);
    assert_eq!(wait_ms(60000), 60001);
    assert_eq!(wait_ms(1234567), 60001 - (1234567 % 60000) as u16);
}

#[test]
fn wait_never_exceeds_remaining_minute() {
    for now in [0u64, 1, 59999, 60000, 60001, 119999, 1234567, u64::MAX] {
        let w = wait_ms(now);
        assert!(w >= 2);
        assert!(u64::from(w) <= 60001 - now % 60000);
    }
}

#[test]
fn cycle_plans() {
    let p = cycle_plan(&WakeOutcome::TimedOut);
    assert!(!p.drain && p.print && !p.fatal);
    let p = cycle_plan(&WakeOutcome::NotificationsReady);
    assert!(p.drain && p.print && !p.fatal);
    let p = cycle_plan(&WakeOutcome::WaitFailed);
    assert!(!p.drain && !p.print && p.fatal);
}

#[test]
fn burst_of_notifications_prints_once() {
    // however many events are queued, one wake makes one plan with one print
    let p = cycle_plan(&WakeOutcome::NotificationsReady);
    let mut lines = 0;
    if p.print {
        lines += 1;
    }
    assert_eq!(lines, 1);
    assert!(p.drain);
}

#[test]
fn full_line_for_known_readings() {
    let t = Timestamp { year: 2026, month: 10, day: 12, hour: 8, minute: 30 };
    let line = format_status(
        &t,
        &Reading::Known(57),
        &Reading::Known(120),
        &Reading::Known(240),
    );
    let expected = format!(
        "2026-10-12 08:30 {}50% {}57%",
        BRIGHTNESS_EMOJI, BATTERY_EMOJI
    );
    assert_eq!(line, expected);
    assert!(line.contains(&format!("{}50%", BRIGHTNESS_EMOJI)));
    assert!(line.contains(&format!("{}57%", BATTERY_EMOJI)));
}

#[test]
fn lost_max_brightness_only_degrades_brightness() {
    let t = Timestamp { year: 2026, month: 10, day: 12, hour: 8, minute: 31 };
    let line = format_status(
        &t,
        &Reading::Known(57),
        &Reading::Known(120),
        &Reading::Unknown,
    );
    let expected = format!(
        "2026-10-12 08:31 {}???% {}57%",
        BRIGHTNESS_EMOJI, BATTERY_EMOJI
    );
    assert_eq!(line, expected);
}

#[test]
fn status_line_has_timestamp_shape() {
    let line = status_line(&Reading::Known(57), &Reading::Known(120), &Reading::Known(240));
    let chars: Vec<char> = line.chars().collect();
    assert!(chars.len() > 16);
    assert_eq!(chars[4], '-');
    assert_eq!(chars[7], '-');
    assert_eq!(chars[10], ' ');
    assert_eq!(chars[13], ':');
    for (i, c) in chars[..16].iter().enumerate() {
        if i != 4 && i != 7 && i != 10 && i != 13 {
            assert!(c.is_ascii_digit());
        }
    }
    let suffix = format!(" {}50% {}57%", BRIGHTNESS_EMOJI, BATTERY_EMOJI);
    assert!(line.ends_with(&suffix));
}

#[test]
fn missing_path_message_names_the_path() {
    assert_eq!(
        missing_path_message("/nope/capacity"),
        "\"/nope/capacity\" does not exist."
    );
    assert!(missing_path_message("/nope/capacity").contains("/nope/capacity"));
}
