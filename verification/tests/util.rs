use doh::location::Location;
use doh::timestamp::Tm;
use doh::util::{
    human_readable_size, max_listing_lines, parent_url, parse_rfc3339, percent_decode,
    GETCH_ENTER, GETCH_ESC, GETCH_SPECIAL_PREFIX, TAB_WIDTH, USER_AGENT,
};

fn location(text: &str) -> Location {
    Location::parse(text).unwrap()
}

#[test]
fn tab_spacing() {
    assert_eq!(doh::util::tab_spacing().len(), TAB_WIDTH);
    for c in doh::util::tab_spacing().chars() {
        assert_eq!(c, ' ');
    }
}

#[test]
fn human_readable_size_of_nothing() {
    assert_eq!(human_readable_size(0), "0B");
}

#[test]
fn human_readable_size_of_bytes() {
    assert_eq!(human_readable_size(1), "1B");
    assert_eq!(human_readable_size(999), "999B");
    assert_eq!(human_readable_size(1023), "1023B");
}

#[test]
fn human_readable_size_with_a_decimal() {
    assert_eq!(human_readable_size(2297), "2.2KiB");
    assert_eq!(human_readable_size(1536), "1.5KiB");
    assert_eq!(human_readable_size(5 * 1024 * 1024 + 512 * 1024), "5.5MiB");
}

#[test]
fn human_readable_size_without_a_decimal() {
    assert_eq!(human_readable_size(1024), "1KiB");
    assert_eq!(human_readable_size(1024 * 1024), "1MiB");
    assert_eq!(human_readable_size(1024 * 1024 * 1024), "1GiB");
    assert_eq!(human_readable_size(1u64 << 40), "1TiB");
    assert_eq!(human_readable_size(1u64 << 50), "1PiB");
    assert_eq!(human_readable_size(1u64 << 60), "1EiB");
}

#[test]
fn human_readable_size_rounds_half_up() {
    // 1280 / 1024 = 1.25
    assert_eq!(human_readable_size(1280), "1.3KiB");
    // 1075 / 1024 = 1.0498...
    assert_eq!(human_readable_size(1075), "1KiB");
    // 1076 / 1024 = 1.0507...
    assert_eq!(human_readable_size(1076), "1.1KiB");
}

#[test]
fn human_readable_size_just_under_a_unit() {
    assert_eq!(human_readable_size(1024 * 1024 - 1), "1024KiB");
}

#[test]
fn human_readable_size_of_the_largest() {
    assert_eq!(human_readable_size(u64::MAX), "16EiB");
}

#[test]
fn parent_url_of_a_directory() {
    assert_eq!(parent_url(&location("http://h/a/b/")), location("http://h/a"));
    assert_eq!(
        parent_url(&location("https://google.com/search/capitalism/")),
        location("https://google.com/search")
    );
}

#[test]
fn parent_url_of_a_file() {
    assert_eq!(parent_url(&location("http://h/a")), location("http://h"));
    assert_eq!(parent_url(&location("https://google.com/search")), location("https://google.com"));
}

#[test]
fn parent_url_of_a_root_is_the_root() {
    assert_eq!(parent_url(&location("http://h")), location("http://h"));
    assert_eq!(parent_url(&location("https://google.com")), location("https://google.com"));
    assert_eq!(parent_url(&location("http://h")).as_str(), "http://h/");
}

#[test]
fn parent_url_is_not_idempotent_below_the_root() {
    let start = location("http://h/a/b/");
    let once = parent_url(&start);
    let twice = parent_url(&once);
    assert_ne!(once, start);
    assert_ne!(twice, once);
    assert_eq!(parent_url(&twice), twice);
}

#[test]
fn parent_url_without_a_slash_stays() {
    assert_eq!(parent_url(&location("mailto:someone")), location("mailto:someone"));
}

#[test]
fn location_is_normalised_by_parsing() {
    assert_eq!(location("HTTP://Example.COM").as_str(), "http://example.com/");
    assert!(Location::parse("not a url").is_none());
}

#[test]
fn location_join_and_path() {
    let base = location("http://h/a/");
    assert_eq!(base.join("b/").unwrap().as_str(), "http://h/a/b/");
    assert_eq!(base.join("../").unwrap().as_str(), "http://h/");
    assert_eq!(base.join("f.txt").unwrap().path().unwrap(), "/a/f.txt");
    assert!(base.same(&location("http://h/a/")));
    assert!(!base.same(&location("http://h/a")));
    assert_eq!(base.clone(), base);
}

#[test]
fn percent_decode_text() {
    assert_eq!(
        percent_decode("%D0%B0%D1%81%D0%B4%D1%84%20fdsa"),
        Some("\u{430}\u{441}\u{434}\u{444} fdsa".to_string())
    );
    assert_eq!(percent_decode("plain"), Some("plain".to_string()));
}

#[test]
fn percent_decode_not_text() {
    assert_eq!(percent_decode("%D0%D1%81%D0%B4%D1%84%20fdsa"), None);
}

#[test]
fn parse_rfc3339_with_offset() {
    assert_eq!(
        parse_rfc3339("2012-02-22T07:53:18-07:00"),
        Ok(Tm {
            tm_sec: 18,
            tm_min: 53,
            tm_hour: 7,
            tm_mday: 22,
            tm_mon: 1,
            tm_year: 112,
            tm_wday: 0,
            tm_yday: 0,
            tm_isdst: 0,
            tm_utcoff: -25200,
            tm_nsec: 0,
        })
    );
}

#[test]
fn parse_rfc3339_utc_with_fraction() {
    assert_eq!(
        parse_rfc3339("2012-02-22T14:53:18.42Z"),
        Ok(Tm {
            tm_sec: 18,
            tm_min: 53,
            tm_hour: 14,
            tm_mday: 22,
            tm_mon: 1,
            tm_year: 112,
            tm_wday: 0,
            tm_yday: 0,
            tm_isdst: 0,
            tm_utcoff: 0,
            tm_nsec: 420000000,
        })
    );
}

#[test]
fn parse_rfc3339_utc_and_offset_with_fraction() {
    let utc = parse_rfc3339("2012-02-22T15:23:18Z").unwrap();
    assert_eq!((utc.tm_hour, utc.tm_min, utc.tm_sec, utc.tm_utcoff, utc.tm_nsec), (15, 23, 18, 0, 0));
    let offset = parse_rfc3339("2012-02-22T07:53:18.5+01:30").unwrap();
    assert_eq!(offset.tm_utcoff, 5400);
    assert_eq!(offset.tm_nsec, 500000000);
    assert!(utc.check_convertible());
    assert!(offset.check_convertible());
}

#[test]
fn parse_rfc3339_refuses() {
    let error = parse_rfc3339("yesterday").unwrap_err();
    assert_eq!(error.cause, time::ParseError::InvalidYear);
    assert!(parse_rfc3339("2012-13-22T14:53:18Z").is_err());
    assert!(parse_rfc3339("").is_err());
}

#[test]
fn check_convertible_refuses_fields_out_of_range() {
    let good = parse_rfc3339("2012-02-22T15:23:18Z").unwrap();
    assert!(good.check_convertible());
    assert!(!Tm { tm_nsec: 1_000_000_000, ..good }.check_convertible());
    assert!(!Tm { tm_nsec: -1, ..good }.check_convertible());
    assert!(!Tm { tm_mon: 12, ..good }.check_convertible());
    assert!(!Tm { tm_mday: 0, ..good }.check_convertible());
    assert!(!Tm { tm_hour: 24, ..good }.check_convertible());
    assert!(!Tm { tm_min: 60, ..good }.check_convertible());
    assert!(!Tm { tm_wday: 7, ..good }.check_convertible());
}

#[test]
fn check_convertible_refuses_a_leap_second() {
    let good = parse_rfc3339("2012-06-30T23:59:59Z").unwrap();
    assert!(good.check_convertible());
    let leap = parse_rfc3339("2012-06-30T23:59:60Z").unwrap();
    assert_eq!(leap.tm_sec, 60);
    assert!(!leap.check_convertible());
}

#[test]
fn check_convertible_wants_a_day_that_the_month_has() {
    assert!(parse_rfc3339("2012-02-29T00:00:00Z").unwrap().check_convertible());
    assert!(!parse_rfc3339("2013-02-29T00:00:00Z").unwrap().check_convertible());
    assert!(!parse_rfc3339("2012-02-30T00:00:00Z").unwrap().check_convertible());
    assert!(parse_rfc3339("2000-02-29T00:00:00Z").unwrap().check_convertible());
    assert!(!parse_rfc3339("2100-02-29T00:00:00Z").unwrap().check_convertible());
    assert!(parse_rfc3339("2012-04-30T00:00:00Z").unwrap().check_convertible());
    assert!(!parse_rfc3339("2012-04-31T00:00:00Z").unwrap().check_convertible());
    assert!(!parse_rfc3339("2012-06-31T00:00:00Z").unwrap().check_convertible());
    assert!(!parse_rfc3339("2012-09-31T00:00:00Z").unwrap().check_convertible());
    assert!(!parse_rfc3339("2012-11-31T00:00:00Z").unwrap().check_convertible());
    assert!(parse_rfc3339("2012-12-31T00:00:00Z").unwrap().check_convertible());
    assert!(parse_rfc3339("2012-01-31T00:00:00Z").unwrap().check_convertible());
}

#[test]
fn check_convertible_wants_a_year_from_1901_to_9999() {
    assert!(!parse_rfc3339("1900-12-31T23:59:59Z").unwrap().check_convertible());
    assert!(parse_rfc3339("1901-01-01T00:00:00Z").unwrap().check_convertible());
    assert!(!parse_rfc3339("1601-01-01T00:00:00Z").unwrap().check_convertible());
    assert!(!parse_rfc3339("0000-01-01T00:00:00Z").unwrap().check_convertible());
    assert!(parse_rfc3339("9999-12-31T23:59:59Z").unwrap().check_convertible());
    let good = parse_rfc3339("2012-02-22T15:23:18Z").unwrap();
    assert!(!Tm { tm_year: 8100, ..good }.check_convertible());
}

#[test]
fn max_listing_lines_leaves_two_rows() {
    assert_eq!(max_listing_lines(24), 22);
    assert_eq!(max_listing_lines(2), 0);
}

#[test]
fn constants() {
    assert_eq!(GETCH_ENTER, b'\r');
    assert_eq!(GETCH_ESC, b'\x1B');
    assert_eq!(GETCH_SPECIAL_PREFIX, 224);
    assert!(USER_AGENT.starts_with("D'Oh/"));
}
