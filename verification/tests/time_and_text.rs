use codex_widget::bridge::{
    days_remaining, fallback_daily_avg, fallback_format_duration, fallback_time_remaining,
    read_format_buffer, FormatBufferError, WASM_BUF_OFFSET, WASM_BUF_SIZE,
};
use codex_widget::clock::{days_in_current_month, format_timestamp, month_length_of, next_monday_ts, next_monday_ts_checked};
use codex_widget::costs::bucket_date_text;
use codex_widget::config::{default_codex_path, default_refresh_secs};
use codex_widget::countdown::{format_remaining_secs, Countdown};
use codex_widget::text::{i64_to_string, u64_to_string};
use codex_widget::text16::{copy_utf16_truncate, encode_utf16};
use codex_widget::theme::WidgetTheme;

#[test]
fn decimal_rendering_matches_display() {
    for n in [0u64, 7, 10, 99, 100, 12345, u64::MAX] {
        assert_eq!(u64_to_string(n), n.to_string());
    }
    for n in [0i64, -1, 42, -42, i64::MIN, i64::MAX] {
        assert_eq!(i64_to_string(n), n.to_string());
    }
}

#[test]
fn time_remaining_never_negative() {
    assert_eq!(fallback_time_remaining(100, 40), 60);
    assert_eq!(fallback_time_remaining(40, 100), 0);
    assert_eq!(fallback_time_remaining(5, 5), 0);
}

#[test]
fn daily_average_rounds_down() {
    assert_eq!(fallback_daily_avg(1000, 3), 333);
    assert_eq!(fallback_daily_avg(1000, 0), 0);
    assert_eq!(fallback_daily_avg(0, 7), 0);
    assert_eq!(fallback_daily_avg(u64::MAX, 1), u64::MAX);
}

#[test]
fn durations() {
    assert_eq!(fallback_format_duration(0), "0s");
    assert_eq!(fallback_format_duration(-10), "0s");
    assert_eq!(fallback_format_duration(59), "0m");
    assert_eq!(fallback_format_duration(61), "1m");
    assert_eq!(fallback_format_duration(3600), "1h 0m");
    assert_eq!(fallback_format_duration(3 * 3600 + 25 * 60 + 9), "3h 25m");
    assert_eq!(fallback_format_duration(2 * 86400 + 5 * 3600 + 59), "2d 5h");
    assert_eq!(fallback_format_duration(86400), "1d 0h");
}

#[test]
fn days_left_until_reset() {
    assert_eq!(days_remaining(10 * 86400, 0), 10);
    assert_eq!(days_remaining(10 * 86400 - 1, 0), 9);
    assert_eq!(days_remaining(0, 100), 0);
}

#[test]
fn countdown_texts() {
    assert_eq!(format_remaining_secs(0), "Expired");
    assert_eq!(format_remaining_secs(-3), "Expired");
    assert_eq!(format_remaining_secs(45), "45s");
    assert_eq!(format_remaining_secs(60), "1m 0s");
    assert_eq!(format_remaining_secs(3599), "59m 59s");
    assert_eq!(format_remaining_secs(3600), "1h 0m 0s");
    assert_eq!(format_remaining_secs(90061), "25h 1m 1s");
}

#[test]
fn countdown_at_given_instants() {
    let c = Countdown::new(10_000);
    assert_eq!(c.reset_at, 10_000);
    assert_eq!(c.remaining_seconds_at(6_400), 3_600);
    assert_eq!(c.format_remaining_at(6_400), "1h 0m 0s");
    assert!(!c.is_urgent_at(6_400));
    assert!(c.is_urgent_at(6_401));
    assert_eq!(c.remaining_seconds_at(20_000), 0);
    assert_eq!(c.remaining_seconds_at_reading(6_400), Some(3_600));
    assert_eq!(c.remaining_seconds_at_reading(u64::MAX), Some(10_001));
    assert_eq!(Countdown::new(i64::MIN).remaining_seconds_at_reading(1), None);
    assert_eq!(Countdown::new(i64::MAX).remaining_seconds_at_reading(u64::MAX), None);
    assert_eq!(c.format_remaining_at(20_000), "Expired");
    assert!(c.is_urgent_at(20_000));
}

#[test]
fn countdown_by_the_clock() {
    let past = Countdown::new(0);
    assert_eq!(past.remaining_seconds(), Some(0));
    assert_eq!(past.format_remaining(), Some("Expired".to_string()));
    assert_eq!(past.is_urgent(), Some(true));
    let far = Countdown::new(i64::MAX);
    assert!(far.remaining_seconds().unwrap() > 1_000_000_000);
    assert_eq!(far.is_urgent(), Some(false));
    let overflowing = Countdown::new(i64::MIN);
    assert_eq!(overflowing.remaining_seconds(), None);
    assert_eq!(overflowing.format_remaining(), None);
    assert_eq!(overflowing.is_urgent(), None);
}

#[test]
fn timestamps_show_the_utc_clock() {
    assert_eq!(format_timestamp(0), "未取得");
    assert_eq!(format_timestamp(1_700_000_000), "22:13:20");
    assert_eq!(format_timestamp(1), "00:00:01");
    assert_eq!(format_timestamp(-1), "23:59:59");
    assert_eq!(format_timestamp(8_210_266_876_799), "23:59:59");
    assert_eq!(format_timestamp(8_210_266_876_800), "不明");
    assert_eq!(format_timestamp(i64::MIN), "不明");
}

#[test]
fn next_monday_midnight() {
    // 2023-11-14 (a Tuesday) 22:13:20 UTC -> Monday 2023-11-20.
    assert_eq!(next_monday_ts(1_700_000_000), 1_700_438_400);
    // A Monday moves a whole week on: 2023-11-20 00:00 -> 2023-11-27.
    assert_eq!(next_monday_ts(1_700_438_400), 1_700_438_400 + 7 * 86400);
    // Sunday 2023-11-19 23:59:59 -> the next second's day.
    assert_eq!(next_monday_ts(1_700_438_399), 1_700_438_400);
    // Before the epoch: Wednesday 1969-12-31 -> Monday 1970-01-05.
    assert_eq!(next_monday_ts(-1), 4 * 86400);
    // Out of the calendar's range, the epoch (a Thursday) is used.
    assert_eq!(next_monday_ts(i64::MAX), 4 * 86400);
}

#[test]
fn next_monday_checked_at_the_calendar_end() {
    assert_eq!(next_monday_ts_checked(1_700_000_000), Some(1_700_438_400));
    assert_eq!(next_monday_ts_checked(i64::MAX), Some(4 * 86400));
    assert_eq!(next_monday_ts_checked(i64::MIN), Some(4 * 86400));
    // The last Monday the calendar holds is still reached from the week before.
    assert_eq!(next_monday_ts_checked(8_210_266_271_999), Some(8_210_266_790_400));
    assert_eq!(next_monday_ts_checked(8_210_266_790_399), Some(8_210_266_790_400));
    // From the last Monday on, the next one lies past the calendar's end.
    assert_eq!(next_monday_ts_checked(8_210_266_790_400), None);
    assert_eq!(next_monday_ts_checked(8_210_266_876_799), None);
}

#[test]
fn month_lengths() {
    assert_eq!(days_in_current_month(1_700_000_000), 30); // November 2023
    assert_eq!(days_in_current_month(1_707_523_200), 29); // February 2024
    assert_eq!(days_in_current_month(1_677_000_000), 28); // February 2023
    assert_eq!(days_in_current_month(951_782_400), 29); // February 2000
    assert_eq!(days_in_current_month(0), 31); // January 1970
    assert_eq!(days_in_current_month(1_703_980_800), 31); // December 2023
    assert_eq!(days_in_current_month(8_210_266_876_799), 30); // December 262142
}

#[test]
fn utf16_copy_truncates_and_terminates() {
    let mut buf = [7u16; 8];
    copy_utf16_truncate(&mut buf, "Codex");
    assert_eq!(buf, [67, 111, 100, 101, 120, 0, 7, 7]);
    let mut small = [9u16; 4];
    copy_utf16_truncate(&mut small, "Codex Usage Widget");
    assert_eq!(small, [67, 111, 100, 0]);
    let mut one = [5u16; 1];
    copy_utf16_truncate(&mut one, "x");
    assert_eq!(one, [0]);
    let mut wide = [1u16; 6];
    copy_utf16_truncate(&mut wide, "a😀é");
    assert_eq!(wide, [97, 0xD83D, 0xDE00, 0xE9, 0, 1]);
}

#[test]
fn utf16_encoding_matches_std() {
    for s in ["", "abc", "使用状況", "😀x", "\u{10FFFF}"] {
        let expected: Vec<u16> = s.encode_utf16().collect();
        assert_eq!(encode_utf16(s), expected);
    }
}

#[test]
fn palette_and_defaults() {
    assert_eq!(WidgetTheme::bg_primary(), 0x1a1a2e);
    assert_eq!(WidgetTheme::danger(), 0xff1744);
    assert_eq!(WidgetTheme::progress_fill(), 0x536dfe);
    assert_eq!(WidgetTheme::border(), 0x2a2a4a);
    assert_eq!(default_codex_path(), "codex");
    assert_eq!(default_refresh_secs(), 60);
}

#[test]
fn month_lengths_by_year_and_month() {
    assert_eq!(month_length_of(2024, 2), 29);
    assert_eq!(month_length_of(2023, 2), 28);
    assert_eq!(month_length_of(1900, 2), 28);
    assert_eq!(month_length_of(2000, 2), 29);
    assert_eq!(month_length_of(2023, 4), 30);
    assert_eq!(month_length_of(2023, 12), 31);
    assert_eq!(month_length_of(-4, 2), 29);
    assert_eq!(month_length_of(-262143, 1), 31);
    assert_eq!(month_length_of(262142, 11), 30);
    assert_eq!(month_length_of(262142, 12), 30);
    assert_eq!(month_length_of(262142, 1), 31);
}

#[test]
fn format_buffer_reading() {
    assert_eq!(WASM_BUF_OFFSET, 1024);
    assert_eq!(WASM_BUF_SIZE, 128);
    let mut memory = vec![0u8; 1100];
    memory[1024..1028].copy_from_slice(b"1.2M");
    assert_eq!(read_format_buffer(&memory, 4), Ok("1.2M".to_string()));
    assert_eq!(read_format_buffer(&memory, 0), Ok(String::new()));
    assert_eq!(read_format_buffer(&memory, 76), Ok("1.2M".to_string() + &"\0".repeat(72)));
    assert_eq!(
        read_format_buffer(&memory, 77),
        Err(FormatBufferError::OutOfBounds { offset: 1024, len: 77 })
    );
    memory[1024] = 0xFF;
    assert_eq!(read_format_buffer(&memory, 4), Err(FormatBufferError::InvalidUtf8));
    let mut jp = vec![0u8; 1024];
    jp.extend_from_slice("日間".as_bytes());
    assert_eq!(read_format_buffer(&jp, 6), Ok("日間".to_string()));
    assert_eq!(read_format_buffer(&jp, 5), Err(FormatBufferError::InvalidUtf8));
    assert_eq!(read_format_buffer(&[], 0), Ok(String::new()));
}

#[test]
fn cost_periods_start_at_midnight() {
    let p = codex_widget::costs::CostPeriods::at(1_700_000_000);
    assert_eq!(p.today_start, 1_699_920_000);
    assert_eq!(p.week_start, 1_699_920_000 - 7 * 86400);
    assert!(p.counts_today(1_699_920_000));
    assert!(!p.counts_today(1_699_919_999));
    assert!(p.counts_this_week(1_699_315_200));
    assert!(!p.counts_this_week(1_699_315_199));
    let before_epoch = codex_widget::costs::CostPeriods::at(-1);
    assert_eq!(before_epoch.today_start, -86400);
    assert_eq!(codex_widget::clock::midnight_of(86_399), 0);
}

#[test]
fn bucket_dates_follow_the_utc_calendar() {
    assert_eq!(bucket_date_text(0), "1970-01-01");
    assert_eq!(bucket_date_text(1_700_000_000), "2023-11-14");
    assert_eq!(bucket_date_text(-1), "1969-12-31");
    assert_eq!(bucket_date_text(253_402_214_400), "9999-12-31");
    assert_eq!(bucket_date_text(253_402_300_800), "+10000-01-01");
    assert_eq!(bucket_date_text(-62_167_219_200), "0000-01-01");
    assert_eq!(bucket_date_text(-62_167_305_600), "-0001-12-31");
    assert_eq!(bucket_date_text(-62_319_888_000), "-0005-03-01");
    assert_eq!(bucket_date_text(-8_334_601_228_800), "-262143-01-01");
    assert_eq!(bucket_date_text(8_210_266_876_799), "+262142-12-31");
    assert_eq!(bucket_date_text(8_210_266_876_800), "");
    assert_eq!(bucket_date_text(i64::MIN), "");
}
