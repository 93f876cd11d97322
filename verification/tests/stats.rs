use libmtg_doomsday::stats::{is_white_space, parse_stats_line, StatsFields};

fn log(lines: &[&str]) -> Vec<String> {
    lines.iter().map(|s| s.to_string()).collect()
}

fn fields(mull: u8, pred: &str, det: bool) -> Option<StatsFields> {
    Some(StatsFields { mull, pred: pred.chars().collect(), det })
}

#[test]
fn parses_the_summary_line() {
    let l = log(&["KEPT 7", "T1 play land", "STATS mull=1 pred=0.5312 det=1", "STATS mull=2 pred=0.1 det=0"]);
    assert_eq!(parse_stats_line(&l), fields(1, "0.5312", true));
    assert_eq!(parse_stats_line(&log(&["T1 land", "STATS mull=2 pred=0.25 det=0"])), fields(2, "0.25", false));
}

#[test]
fn no_or_incomplete_summary_line_is_none() {
    assert_eq!(parse_stats_line(&log(&["KEPT 7", " STATS mull=1 pred=1 det=1", "STAT mull=1"])), None);
    assert_eq!(parse_stats_line(&log(&[])), None);
    assert_eq!(parse_stats_line(&log(&["STATS mull=1 det=1"])), None);
    // only the first summary line is read
    assert_eq!(parse_stats_line(&log(&["STATS mull=x", "STATS mull=1 pred=0.5 det=1"])), None);
}

#[test]
fn numbers_follow_unsigned_byte_syntax() {
    assert_eq!(parse_stats_line(&log(&["STATS mull=+3 det=0 pred=x"])), fields(3, "x", false));
    assert_eq!(parse_stats_line(&log(&["STATS mull=256 pred=1 det=1"])), None);
    assert_eq!(parse_stats_line(&log(&["STATS mull=1 pred=1 det=-1"])), None);
    assert_eq!(parse_stats_line(&log(&["STATS mull=1 pred= det=+"])), None);
    assert_eq!(parse_stats_line(&log(&["STATS mull=255 pred= det=007"])), fields(255, "", true));
}

#[test]
fn later_tokens_override_and_any_whitespace_separates() {
    let l = log(&["STATS mull=1\tmull=2  pred=0.9\u{3000}det=1 mull=z"]);
    assert_eq!(parse_stats_line(&l), None);
    let l = log(&["STATS mull=1\tmull=2  pred=0.9\u{3000}det=1\u{85}pred=0.7"]);
    assert_eq!(parse_stats_line(&l), fields(2, "0.7", true));
}

#[test]
fn white_space_matches_std() {
    for c in ['\t', '\n', '\u{b}', '\u{c}', '\r', ' ', '\u{85}', '\u{a0}', '\u{1680}', '\u{2000}', '\u{200a}', '\u{2028}', '\u{2029}', '\u{202f}', '\u{205f}', '\u{3000}', 'a', '\u{200b}', '\u{1f}', '\u{feff}', '0'] {
        assert_eq!(is_white_space(c), c.is_whitespace(), "{c:?}");
    }
}
