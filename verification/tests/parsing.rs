use mooncell::errors::TopError;
use mooncell::parse::{
    find_substr, parse_core_ticks_line, parse_power_milliwatts, parse_stat_content,
    parse_temp_millic, read_u64, skip_ws, trim_str,
};

#[test]
fn trimming() {
    assert_eq!(trim_str("  47123\n"), "47123");
    assert_eq!(trim_str("abc"), "abc");
    assert_eq!(trim_str("   \t\n"), "");
    assert_eq!(trim_str(""), "");
}

#[test]
fn temperature_parses_millidegrees() {
    assert_eq!(parse_temp_millic("47123\n"), Ok(47123));
    assert_eq!(parse_temp_millic("  47123  "), Ok(47123));
    assert_eq!(parse_temp_millic("0"), Ok(0));
}

#[test]
fn temperature_rejects_bad_text() {
    assert_eq!(parse_temp_millic("abc"), Err(TopError::ParseError));
    assert_eq!(parse_temp_millic(""), Err(TopError::ParseError));
    assert_eq!(parse_temp_millic("47.5"), Err(TopError::ParseError));
    // beyond the 32-bit range
    assert_eq!(parse_temp_millic("5000000000"), Err(TopError::ParseError));
}

#[test]
fn power_parses_milliwatts() {
    let out = "  native-path: BAT0\n  energy-rate:         7.123 W\n  voltage: 12 V\n";
    assert_eq!(parse_power_milliwatts(out), Ok(7123));
    assert_eq!(parse_power_milliwatts("energy-rate: 7 W"), Ok(7000));
    assert_eq!(parse_power_milliwatts("energy-rate: 7.5 W"), Ok(7500));
    assert_eq!(parse_power_milliwatts("energy-rate: 7.05 W"), Ok(7050));
    // extra fraction digits are cut, not rounded
    assert_eq!(parse_power_milliwatts("energy-rate: 7.1239 W"), Ok(7123));
}

#[test]
fn power_failures_are_typed() {
    assert_eq!(
        parse_power_milliwatts("voltage: 12 V"),
        Err(TopError::NotFindError)
    );
    assert_eq!(
        parse_power_milliwatts("energy-rate:  x"),
        Err(TopError::ParseError)
    );
}

#[test]
fn counter_line_parses_eight_fields() {
    let line = "cpu0 10 2 30 400 5 6 7 8 0 0";
    let t = parse_core_ticks_line(line).unwrap();
    assert_eq!(t.user, 10);
    assert_eq!(t.nice, 2);
    assert_eq!(t.system, 30);
    assert_eq!(t.idle, 400);
    assert_eq!(t.iowait, 5);
    assert_eq!(t.irq, 6);
    assert_eq!(t.softirq, 7);
    assert_eq!(t.steal, 8);
}

#[test]
fn counter_line_rejects_short_lines() {
    assert_eq!(
        parse_core_ticks_line("cpu0 10 2 30"),
        Err(TopError::ParseError)
    );
    assert_eq!(parse_core_ticks_line(""), Err(TopError::ParseError));
}

#[test]
fn scanning_helpers() {
    assert_eq!(skip_ws("   a", 0), 3);
    assert_eq!(skip_ws("a", 0), 0);
    assert_eq!(find_substr("hello world", "world"), Some(6));
    assert_eq!(find_substr("hello", "world"), None);
    assert_eq!(find_substr("aaab", "ab"), Some(2));
    let r = read_u64("123x", 0).unwrap();
    assert_eq!(r, (123, 3));
    assert!(read_u64("x", 0).is_err());
    // a value just past the 64-bit range
    assert!(read_u64("18446744073709551616", 0).is_err());
    assert_eq!(read_u64("18446744073709551615", 0).unwrap().0, u64::MAX);
}

#[test]
fn stat_content_keeps_core_lines_and_skips_the_rest() {
    let text = "cpu  9 9 9 9 9 9 9 9 0 0\ncpu0 1 2 3 4 5 6 7 8 0 0\ncpu1 broken\ncpu2 10 20 30 40 50 60 70 80 0 0\nintr 1 2 3\n";
    let cores = parse_stat_content(text).unwrap();
    // the summary line and the malformed line are skipped
    assert_eq!(cores.len(), 2);
    assert_eq!(cores[0].user, 1);
    assert_eq!(cores[0].steal, 8);
    assert_eq!(cores[1].user, 10);
    assert_eq!(cores[1].idle, 40);
}

#[test]
fn stat_content_without_cores_yields_nothing() {
    assert!(parse_stat_content("intr 1 2 3\n").is_none());
    assert!(parse_stat_content("").is_none());
}
