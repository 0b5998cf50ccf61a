use screen_recorder::clock::{read_groups, read_newest, ClockReading, LogScanner};
use screen_recorder::progress::{
    FfmpegLog, Measurement, Total, DONE, KNOWN_TOTAL_CAP, UNKNOWN_TOTAL_CAP,
};

fn scanner() -> LogScanner {
    LogScanner::new().unwrap()
}

fn secs(reading: &ClockReading) -> f64 {
    f64::from(reading.hours) * 3600.0
        + f64::from(reading.minutes) * 60.0
        + f64::from(reading.seconds)
        + f64::from(reading.fraction) / 10f64.powi(reading.digits as i32)
}

fn progress_percent(acc: &str, total: f64) -> Option<i64> {
    let current = scanner().newest_status(acc)?;
    let rounded = ((secs(&current) / total) * 100.0).round() as u64;
    FfmpegLog::new().report(rounded).map(i64::from)
}

fn header_duration(acc: &str) -> Option<f64> {
    scanner().header_duration(acc).map(|reading| secs(&reading))
}

fn reading(hours: u32, minutes: u32, seconds: u32, fraction: u32, digits: u32) -> ClockReading {
    ClockReading { hours, minutes, seconds, fraction, digits }
}

fn groups(texts: &[&str]) -> Vec<Option<String>> {
    texts.iter().map(|t| Some(t.to_string())).collect()
}

#[test]
fn test_progress_percent_reads_the_newest_status_line() {
    let acc = "frame=1 time=00:00:10.00 bitrate=1\rframe=2 time=00:00:30.00 bitrate=1\r";
    assert_eq!(progress_percent(acc, 60.0), Some(50));
}

#[test]
fn test_progress_percent_without_a_status_line_is_none() {
    assert_eq!(progress_percent("Input #0, matroska,webm\n", 60.0), None);
}

#[test]
fn test_progress_percent_caps_at_99_when_the_estimate_runs_short() {
    assert_eq!(progress_percent("time=00:01:30.00\r", 60.0), Some(99));
}

#[test]
fn test_progress_percent_parses_fractional_seconds_by_digit_count() {
    assert_eq!(progress_percent("time=00:00:00.50\r", 1.0), Some(50));
}

#[test]
fn test_progress_percent_counts_hours_and_minutes() {
    assert_eq!(progress_percent("time=01:30:00.00\r", 10800.0), Some(50));
}

#[test]
fn test_header_duration_reads_the_input_header() {
    let acc = "  Duration: 00:01:40.00, start: 0.000000, bitrate: 385 kb/s\n";
    assert_eq!(header_duration(acc), Some(100.0));
}

#[test]
fn test_header_duration_absent_for_a_live_webm() {
    let acc = "  Duration: N/A, start: -0.007000, bitrate: N/A\n";
    assert_eq!(header_duration(acc), None);
}

#[test]
fn header_duration_takes_the_first_header() {
    let acc = "Duration: 00:00:01.5\nDuration: 00:00:02.5\n";
    assert_eq!(scanner().header_duration(acc), Some(reading(0, 0, 1, 5, 1)));
}

#[test]
fn header_may_have_any_space_behind_the_colon() {
    assert_eq!(scanner().header_duration("Duration:01:02:03.004"), Some(reading(1, 2, 3, 4, 3)));
    assert_eq!(scanner().header_duration("Duration: \t 01:02:03.04"), Some(reading(1, 2, 3, 4, 2)));
}

#[test]
fn digits_outside_ascii_match_and_count_as_zero() {
    let acc = "time=\u{0661}\u{0662}:01:02.3";
    assert_eq!(scanner().newest_status(acc), Some(reading(0, 1, 2, 3, 1)));
}

#[test]
fn a_fourth_digit_behind_the_point_is_left_out() {
    assert_eq!(scanner().newest_status("time=00:00:01.2345"), Some(reading(0, 0, 1, 234, 3)));
}

#[test]
fn readings_in_thousandths() {
    assert_eq!(reading(1, 2, 3, 5, 1).millis(), 3_723_500);
    assert_eq!(reading(1, 2, 3, 50, 2).millis(), 3_723_500);
    assert_eq!(reading(1, 2, 3, 500, 3).millis(), 3_723_500);
    assert_eq!(reading(99, 99, 99, 999, 3).millis(), 362_439_999);
    assert_eq!(reading(0, 1, 40, 0, 2).millis(), 100_000);
}

#[test]
fn groups_of_another_shape_are_no_reading() {
    assert_eq!(
        read_groups(&groups(&["x", "01", "02", "03", "4"])),
        Some(reading(1, 2, 3, 4, 1))
    );
    assert_eq!(read_groups(&groups(&["x", "01", "02", "03"])), None);
    assert_eq!(read_groups(&groups(&["x", "1", "02", "03", "4"])), None);
    assert_eq!(read_groups(&groups(&["x", "01", "02", "03", ""])), None);
    assert_eq!(read_groups(&groups(&["x", "01", "02", "03", "4567"])), None);
    assert_eq!(read_groups(&[None, None, None, None, None].to_vec()), None);
}

#[test]
fn the_newest_match_counts() {
    let first = groups(&["x", "01", "00", "00", "0"]);
    let second = groups(&["x", "02", "00", "00", "0"]);
    assert_eq!(read_newest(&vec![first, second]), Some(reading(2, 0, 0, 0, 1)));
    assert_eq!(read_newest(&vec![]), None);
}

#[test]
fn absorb_measures_against_the_header() {
    let mut log = FfmpegLog::new();
    let length = reading(0, 1, 0, 0, 2);
    assert_eq!(log.absorb(&scanner(), b"Duration: 00:01:00.00\n", true, true), None);
    let found = log.absorb(&scanner(), b"time=00:00:15.00\r", true, true);
    assert_eq!(
        found,
        Some(Measurement { current: reading(0, 0, 15, 0, 2), total: Total::Header(length) })
    );
    assert_eq!(log.report(25), Some(25));
}

#[test]
fn absorb_joins_a_reading_that_comes_in_two_pieces() {
    let mut log = FfmpegLog::new();
    assert_eq!(log.absorb(&scanner(), b"time=00:0", true, true), None);
    let found = log.absorb(&scanner(), b"0:05.00\r", true, true);
    assert_eq!(
        found,
        Some(Measurement { current: reading(0, 0, 5, 0, 2), total: Total::Estimate })
    );
}

#[test]
fn absorb_is_silent_without_a_listener_or_a_total() {
    let mut log = FfmpegLog::new();
    assert_eq!(log.absorb(&scanner(), b"time=00:00:05.00\r", false, true), None);
    assert_eq!(log.absorb(&scanner(), b"time=00:00:06.00\r", true, false), None);
}

#[test]
fn a_header_of_zero_length_leaves_no_total() {
    let mut log = FfmpegLog::new();
    let found = log.absorb(&scanner(), b"Duration: 00:00:00.00 time=00:00:05.00\r", true, true);
    assert_eq!(found, None);
}

#[test]
fn the_first_header_wins_over_later_ones_and_the_estimate() {
    let mut log = FfmpegLog::new();
    let length = reading(0, 1, 0, 0, 2);
    log.absorb(&scanner(), b"Duration: 00:01:00.00\n", true, false);
    let found = log.absorb(&scanner(), b"Duration: 00:09:00.00 time=00:00:05.00\r", true, true);
    assert_eq!(found.unwrap().total, Total::Header(length));
}

#[test]
fn settle_takes_what_a_look_found() {
    let mut log = FfmpegLog::new();
    let length = reading(0, 0, 10, 0, 1);
    let current = reading(0, 0, 5, 0, 1);
    assert_eq!(
        log.settle(Some(length), Some(current), true, false),
        Some(Measurement { current, total: Total::Header(length) })
    );
    assert_eq!(log.settle(None, None, true, true), None);
    assert_eq!(log.settle(None, Some(current), false, true), None);
}

#[test]
fn bytes_that_are_not_utf8_are_replaced() {
    let mut log = FfmpegLog::new();
    log.absorb(&scanner(), b"a\xffb", true, false);
    assert_eq!(log.text(), "a\u{fffd}b");
    let mut log = FfmpegLog::new();
    log.absorb(&scanner(), "\u{e9}\u{20ac}".as_bytes(), true, false);
    assert_eq!(log.text(), "\u{e9}\u{20ac}");
}

#[test]
fn the_log_is_cut_back_to_half_the_cap() {
    let mut log = FfmpegLog::new();
    log.absorb(&scanner(), &vec![b'x'; KNOWN_TOTAL_CAP], true, true);
    assert_eq!(log.text().len(), 8192);
    log.absorb(&scanner(), b"END", true, true);
    assert_eq!(log.text().len(), 4096);
    assert!(log.text().ends_with("xEND"));
}

#[test]
fn the_cut_lands_on_a_character_boundary() {
    let mut log = FfmpegLog::new();
    let euros = "\u{20ac}".repeat(3000);
    log.absorb(&scanner(), euros.as_bytes(), true, true);
    assert_eq!(log.text(), "\u{20ac}".repeat(1365));
    assert_eq!(log.text().len(), 4095);
}

#[test]
fn without_a_total_more_of_the_log_is_kept() {
    let mut log = FfmpegLog::new();
    log.absorb(&scanner(), &vec![b'x'; UNKNOWN_TOTAL_CAP], true, false);
    assert_eq!(log.text().len(), 262_144);
    log.absorb(&scanner(), b"y", true, false);
    assert_eq!(log.text().len(), 131_072);
    log.absorb(&scanner(), b"z", true, true);
    assert_eq!(log.text().len(), 4096);
}

#[test]
fn reports_do_not_repeat_and_stay_below_a_hundred() {
    let mut log = FfmpegLog::new();
    let mut told = Vec::new();
    for rounded in [0, 0, 1, 1, 50, 99, 100, 250, u64::MAX, 98] {
        told.extend(log.report(rounded));
    }
    assert_eq!(told, vec![0, 1, 50, 99, 98]);
}

#[test]
fn a_successful_run_reports_a_hundred() {
    assert_eq!(FfmpegLog::new().outcome(true, Some(0)), Ok(DONE));
    assert_eq!(DONE, 100);
}

#[test]
fn a_failed_run_quotes_the_end_of_the_log() {
    let mut log = FfmpegLog::new();
    log.absorb(&scanner(), &vec![b'a'; 10], true, false);
    log.absorb(&scanner(), "\u{e9}".repeat(500).as_bytes(), true, false);
    let expected = format!("FFmpeg failed (exit 1): {}", "\u{e9}".repeat(500));
    assert_eq!(log.outcome(false, Some(1)), Err(expected));
}

#[test]
fn a_failed_run_without_a_log_or_a_code() {
    let log = FfmpegLog::new();
    assert_eq!(
        log.outcome(false, Some(-1094995529)),
        Err("FFmpeg failed (exit -1094995529): Unknown error".to_string())
    );
    assert_eq!(
        log.outcome(false, Some(i32::MIN)),
        Err("FFmpeg failed (exit -2147483648): Unknown error".to_string())
    );
    assert_eq!(
        log.outcome(false, None),
        Err("FFmpeg failed (exit ?): Unknown error".to_string())
    );
}

#[test]
fn a_failure_quotes_the_end_of_the_whole_log_after_cuts() {
    let mut log = FfmpegLog::new();
    let mut whole = String::new();
    for n in 0..2000 {
        let piece = format!("line {n} \u{1f3ac}\u{20ac}\n");
        log.absorb(&scanner(), piece.as_bytes(), true, n % 3 == 0);
        whole.push_str(&piece);
    }
    assert!(log.text().len() <= 8192);
    let skipped = whole.chars().count() - 500;
    let tail: String = whole.chars().skip(skipped).collect();
    assert_eq!(log.outcome(false, Some(1)), Err(format!("FFmpeg failed (exit 1): {tail}")));
}

#[test]
fn the_newest_line_of_a_joined_text_decides() {
    let texts = [
        "",
        "frame=1",
        "time=00:00:01.00",
        "time=00:00:02.0 time=00:00:03.123456",
        "time=00:00:0",
        "0:05.00 time=",
        "time=\u{0661}\u{0662}:01:02.3",
        "time=00:00:04.9\rtime=N/A",
        "4:00.00\r\rtime=00:01:00.1",
    ];
    let scanner = scanner();
    for older in texts {
        for newer in texts {
            let joined = format!("{older}\r{newer}");
            assert_eq!(
                scanner.newest_status(&joined),
                scanner.newest_status(newer).or(scanner.newest_status(older))
            );
        }
    }
}

#[test]
fn the_first_header_of_a_joined_text_decides() {
    let texts = [
        "",
        "Duration: N/A",
        "Duration: 00:01:40.00",
        "Duration: 00:00:02.5 Duration: 00:00:03.5",
        "Duration:\n 00:00:0",
        "4.00 start: 0.000000",
        "Duration: ",
        "00:00:07.12 time=00:00:01.00",
        "Duration: \u{0661}\u{0662}:01:02.3",
        "Duration: N/A, Duration: 00:00:09.999",
    ];
    let scanner = scanner();
    for front in texts {
        for rest in texts {
            let joined = format!("{front},{rest}");
            assert_eq!(
                scanner.header_duration(&joined),
                scanner.header_duration(front).or(scanner.header_duration(rest))
            );
        }
    }
    assert_eq!(
        scanner.header_duration("Duration: N/A, start: 0, Duration: 00:00:09.50, bitrate"),
        Some(reading(0, 0, 9, 50, 2))
    );
}

#[test]
fn a_tail_with_a_position_has_the_newest_one() {
    let whole = "time=00:00:01.00 time=time=00:00:02.5\rtime=N/A \u{20ac}time=00:00:03.123456 end";
    let scanner = scanner();
    let newest = scanner.newest_status(whole);
    assert_eq!(newest, Some(reading(0, 0, 3, 123, 3)));
    let mut kept_positions = 0;
    for (cut, _) in whole.char_indices() {
        let of_tail = scanner.newest_status(&whole[cut..]);
        if of_tail.is_some() {
            kept_positions += 1;
            assert_eq!(of_tail, newest);
        }
    }
    let last = whole.char_indices().position(|(cut, _)| whole[cut..].starts_with("time=00:00:03"));
    assert_eq!(Some(kept_positions - 1), last);
}

#[test]
fn a_cut_log_is_read_like_the_whole_log() {
    let scanner = scanner();
    let mut log = FfmpegLog::new();
    let mut whole = String::new();
    for n in 0..1500 {
        let piece = format!("frame={n} time=00:{:02}:{:02}.{} x\r", n / 60, n % 60, n % 10);
        let found = log.absorb(&scanner, piece.as_bytes(), true, true);
        whole.push_str(&piece);
        assert_eq!(found.map(|m| m.current), scanner.newest_status(&whole));
    }
    assert!(log.text().len() < whole.len());
    assert_eq!(scanner.newest_status(log.text()), Some(reading(0, 24, 59, 9, 1)));
}
