use mooncell::fileview::{number_format, split_lines, Fileview};
use mooncell::info::format_date_time;
use mooncell::numfmt::{u64_to_string, u64_to_string_padded};

#[test]
fn decimal_rendering() {
    assert_eq!(u64_to_string(0), "0");
    assert_eq!(u64_to_string(7), "7");
    assert_eq!(u64_to_string(12345), "12345");
    assert_eq!(u64_to_string(u64::MAX), "18446744073709551615");
}

#[test]
fn padded_rendering() {
    assert_eq!(u64_to_string_padded(7, 4), "0007");
    assert_eq!(u64_to_string_padded(12345, 4), "12345");
    assert_eq!(u64_to_string_padded(0, 2), "00");
}

#[test]
fn date_rendering() {
    assert_eq!(format_date_time(2024, 3, 7, 9, 5), "2024-03-07 09:05");
    assert_eq!(format_date_time(50, 12, 31, 23, 59), "0050-12-31 23:59");
    assert_eq!(format_date_time(-44, 1, 1, 0, 0), "-0044-01-01 00:00");
}

#[test]
fn viewer_scrolling() {
    let mut v = Fileview::new();
    assert_eq!(v.start_number, 1);
    v.start_number_up();
    assert_eq!(v.start_number, 1);
    v.start_number_down();
    v.start_number_down();
    assert_eq!(v.start_number, 3);
    v.start_number_up();
    assert_eq!(v.start_number, 2);
    v.start_number_rezero();
    assert_eq!(v.start_number, 1);
}

#[test]
fn viewer_path_and_size() {
    let mut v = Fileview::new();
    v.set_path("/tmp/readme.md");
    assert_eq!(v.get_path_str(), "/tmp/readme.md");
    v.refresh_termainal_size((80, 24));
    assert_eq!(v.terminal_size, (80, 24));
}

#[test]
fn line_numbers_are_padded() {
    assert_eq!(number_format(5), "5  ");
    assert_eq!(number_format(42), "42 ");
    assert_eq!(number_format(123), "123");
}

#[test]
fn line_splitting() {
    assert_eq!(split_lines(""), Vec::<String>::new());
    assert_eq!(split_lines("a"), vec![String::from("a")]);
    assert_eq!(split_lines("a\nb"), vec![String::from("a"), String::from("b")]);
    // a trailing break adds no extra empty line
    assert_eq!(split_lines("a\n"), vec![String::from("a")]);
    assert_eq!(
        split_lines("a\n\nb"),
        vec![String::from("a"), String::from(""), String::from("b")]
    );
}

#[test]
fn display_numbers_every_line() {
    let mut v = Fileview::new();
    v.refresh_termainal_size((30, 24));
    let out = v.str_display_format("hello\nworld");
    assert_eq!(out, "1  |   hello\n2  |   world");
}

#[test]
fn display_drops_rows_before_the_scroll() {
    let mut v = Fileview::new();
    v.refresh_termainal_size((30, 24));
    v.start_number_down();
    let out = v.str_display_format("hello\nworld");
    assert_eq!(out, "2  |   world");
    // scrolling past the end shows nothing
    for _ in 0..10 {
        v.start_number_down();
    }
    assert_eq!(v.str_display_format("hello\nworld"), "");
}

#[test]
fn display_wraps_wide_lines() {
    let mut v = Fileview::new();
    // width 17 leaves 8 columns per row: the first row holds 8 characters,
    // continuations hold the 7-column indent plus one character each
    v.refresh_termainal_size((17, 24));
    let out = v.str_display_format("abc");
    assert_eq!(out, "1  |   a\n       b\n       c");
}

#[test]
fn narrow_terminals_fall_back_to_a_minimum_width() {
    let mut v = Fileview::new();
    v.refresh_termainal_size((0, 0));
    let out = v.str_display_format("ab");
    assert_eq!(out, "1  |   a\n       b");
}
