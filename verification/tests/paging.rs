use doh::ops::paging::{is_text, wrap_text, Footer, Pager, PagingOutcome, PagingStep};
use doh::ops::paging_copy;

const END: &str = "<End of file> <press any key to stop>";

fn text_of_lines(n: usize) -> String {
    (1..=n).map(|i| format!("{}\n", i)).collect()
}

#[test]
fn paging_copy_single_short_input() {
    let run = paging_copy(b"hello\nworld\n", "a.txt", &vec![b' '], (80, 24));
    assert_eq!(run.outcome, PagingOutcome::Completed);
    assert_eq!(run.screens, vec![format!("hello\nworld\n<a.txt> {}", END)]);
    assert_eq!(run.screens.len(), 1);
    assert!(run.screens[0].ends_with("<End of file> <press any key to stop>"));
}

#[test]
fn paging_copy_not_text() {
    let run = paging_copy(&[b'a', 0xFF, b'\n', b'b'], "a.bin", &vec![b' ', b' '], (80, 24));
    assert_eq!(run.outcome, PagingOutcome::NotText);
    assert_eq!(run.screens, Vec::<String>::new());
}

#[test]
fn paging_copy_not_text_in_a_later_line() {
    let mut data = text_of_lines(100).into_bytes();
    data.extend_from_slice(&[0xC3, 0x28]);
    let run = paging_copy(&data, "a.bin", &vec![b' '; 200], (80, 24));
    assert_eq!(run.outcome, PagingOutcome::NotText);
    assert_eq!(run.screens.len(), 0);
}

#[test]
fn paging_copy_not_text_on_any_terminal() {
    // no room is asked for, since nothing is laid out
    for term in [(0, 0), (1, 0), (80, 0), (10, 6), (0, 24)] {
        assert!(!Pager::fits("a.bin", term));
        let run = paging_copy(&[b'a', b'\n', 0xFF], "a.bin", &vec![b' '], term);
        assert_eq!(run.outcome, PagingOutcome::NotText);
        assert_eq!(run.screens.len(), 0);
        assert!(Pager::open(&[0xFF], "a.bin", term).is_none());
    }
}

#[test]
fn is_text_tells_utf8() {
    assert!(is_text(b""));
    assert!(is_text(b"plain\n"));
    assert!(is_text("gr\u{fc}n \u{1F600}".as_bytes()));
    assert!(!is_text(&[0xFF]));
    assert!(!is_text(&[b'a', 0xC3]));
    assert!(!is_text(&[0xC3, 0x28]));
    assert!(!is_text(&[0xED, 0xA0, 0x80]));
    assert!(!is_text(&[0xC0, 0x80]));
}

#[test]
fn paging_copy_of_nothing() {
    let run = paging_copy(&[], "empty", &vec![b' '], (80, 24));
    assert_eq!(run.outcome, PagingOutcome::Completed);
    assert_eq!(run.screens, Vec::<String>::new());
}

#[test]
fn paging_copy_three_screens() {
    let keys = vec![b' ', b'x', b'y'];
    let run = paging_copy(text_of_lines(7).as_bytes(), "f", &keys, (100, 3));
    assert_eq!(run.outcome, PagingOutcome::Completed);
    assert_eq!(
        run.screens,
        vec![
            "1\n2\n3\n<f> <33%> <press any key for next screen> <press Escape to stop>".to_string(),
            "\n4\n5\n6\n<f> <67%> <press any key for last screen> <press Escape to stop>".to_string(),
            format!("\n7\n<f> {}", END),
        ]
    );
}

#[test]
fn paging_copy_escape_stops() {
    let run = paging_copy(text_of_lines(7).as_bytes(), "f", &vec![b' ', 27, b' '], (100, 3));
    assert_eq!(run.outcome, PagingOutcome::Stopped);
    assert_eq!(run.screens.len(), 2);
}

#[test]
fn paging_copy_escape_on_the_last_screen_completes() {
    let run = paging_copy(b"one\n", "f", &vec![27], (100, 3));
    assert_eq!(run.outcome, PagingOutcome::Completed);
    assert_eq!(run.screens.len(), 1);
}

#[test]
fn paging_copy_special_key_advances_once() {
    // an arrow key is two bytes: the prefix and the key
    let run = paging_copy(text_of_lines(7).as_bytes(), "f", &vec![224, 80, 224, 72], (100, 3));
    assert_eq!(run.outcome, PagingOutcome::OutOfKeys);
    assert_eq!(run.screens.len(), 3);
    let run = paging_copy(text_of_lines(7).as_bytes(), "f", &vec![224, 27, 224], (100, 3));
    assert_eq!(run.outcome, PagingOutcome::OutOfKeys);
    assert_eq!(run.screens.len(), 2);
}

#[test]
fn paging_copy_out_of_keys() {
    let run = paging_copy(text_of_lines(7).as_bytes(), "f", &vec![], (100, 3));
    assert_eq!(run.outcome, PagingOutcome::OutOfKeys);
    assert_eq!(run.screens.len(), 1);
}

#[test]
fn footer_takes_rows_from_every_screen() {
    // 63 + 7 characters on 20 columns: 3 rows for the footer, 7 for the text
    assert!(Pager::fits("abcdefg", (20, 10)));
    let run = paging_copy(text_of_lines(14).as_bytes(), "abcdefg", &vec![b' ', b' '], (20, 10));
    assert_eq!(run.outcome, PagingOutcome::Completed);
    assert_eq!(run.screens.len(), 2);
    assert_eq!(
        run.screens[0],
        "1\n2\n3\n4\n5\n6\n7\n<abcdefg> <50%> <press any key for last screen> <press Escape to stop>"
    );
    assert_eq!(run.screens[1], format!("\n8\n9\n10\n11\n12\n13\n14\n<abcdefg> {}", END));
}

#[test]
fn fits_needs_room() {
    assert!(Pager::fits("a", (80, 24)));
    assert!(Pager::fits("a", (64, 2)));
    assert!(!Pager::fits("a", (64, 1)));
    assert!(!Pager::fits("a", (0, 24)));
    assert!(!Pager::fits("a", (10, 6)));
    assert!(Pager::fits("a", (10, 7)));
    assert!(!Pager::fits("a", (80, 0)));
}

#[test]
fn wrap_text_normalises_lines() {
    assert_eq!(wrap_text("a\tb\r\n", 80), vec!["a    b".to_string()]);
    assert_eq!(wrap_text("a\rb\n", 80), vec!["ab".to_string()]);
    assert_eq!(wrap_text("\t", 80), vec!["    ".to_string()]);
}

#[test]
fn wrap_text_keeps_empty_lines() {
    assert_eq!(wrap_text("\n", 80), vec!["".to_string()]);
    assert_eq!(wrap_text("a\n\nb", 80), vec!["a".to_string(), "".to_string(), "b".to_string()]);
    assert_eq!(wrap_text("\r\n\r\n", 80), vec!["".to_string(), "".to_string()]);
    assert_eq!(wrap_text("\r", 80), vec!["".to_string()]);
    assert_eq!(wrap_text("", 80), Vec::<String>::new());
}

#[test]
fn wrap_text_cuts_at_the_width() {
    assert_eq!(
        wrap_text("abcdefghij\nkl", 4),
        vec!["abcd".to_string(), "efgh".to_string(), "ij".to_string(), "kl".to_string()]
    );
    assert_eq!(wrap_text("abcd", 4), vec!["abcd".to_string()]);
    assert_eq!(wrap_text("a b c", 1), vec!["a", " ", "b", " ", "c"]);
    assert_eq!(wrap_text("\u{e9}\u{e8}\u{ea}", 2), vec!["\u{e9}\u{e8}".to_string(), "\u{ea}".to_string()]);
    assert_eq!(wrap_text("\tab", 3), vec!["   ".to_string(), " ab".to_string()]);
}

#[test]
fn pager_steps() {
    let mut pager = Pager::new(&text_of_lines(7), "f", (100, 3));
    assert_eq!(pager.footer(), Footer::More { percent: 33, last: false });
    assert_eq!(
        pager.screen().unwrap(),
        "1\n2\n3\n<f> <33%> <press any key for next screen> <press Escape to stop>"
    );
    assert_eq!(pager.key(b'n'), PagingStep::Next);
    assert_eq!(pager.footer(), Footer::More { percent: 67, last: true });
    assert_eq!(pager.key(224), PagingStep::Next);
    assert_eq!(pager.footer(), Footer::End);
    assert_eq!(pager.key(b'n'), PagingStep::Completed);
    assert_eq!(pager.screen(), None);
}

#[test]
fn pager_stops_on_escape() {
    let mut pager = Pager::new(&text_of_lines(7), "f", (100, 3));
    assert_eq!(pager.key(27), PagingStep::Stopped);
    assert_eq!(pager.screen(), None);
}

#[test]
fn pager_open_refuses_what_is_no_text() {
    assert!(Pager::open(&[0x80], "f", (100, 3)).is_none());
    let pager = Pager::open("gr\u{fc}n\n".as_bytes(), "f", (100, 3)).unwrap();
    assert_eq!(pager.screen().unwrap(), format!("gr\u{fc}n\n<f> {}", END));
}

#[test]
fn footer_texts() {
    assert_eq!(Footer::End.to_string(), END);
    assert_eq!(
        Footer::More { percent: 5, last: false }.to_string(),
        "<5%> <press any key for next screen> <press Escape to stop>"
    );
    assert_eq!(
        Footer::More { percent: 100, last: true }.to_string(),
        "<100%> <press any key for last screen> <press Escape to stop>"
    );
}

#[test]
fn percent_is_rounded_to_the_nearest() {
    // 8 screens: 1/8 = 12.5% rounds to 13
    let pager = Pager::new(&text_of_lines(8), "f", (100, 1));
    assert_eq!(pager.footer(), Footer::More { percent: 13, last: false });
    // 200 screens: the last but one has shown 99.5%, which rounds to 100
    let mut pager = Pager::new(&text_of_lines(200), "f", (100, 1));
    for _ in 0..198 {
        assert_eq!(pager.key(b' '), PagingStep::Next);
    }
    assert_eq!(pager.footer(), Footer::More { percent: 100, last: true });
}
