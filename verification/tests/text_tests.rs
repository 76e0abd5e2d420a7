use bluetodo_tui::args::{parse_args, usage, ArgsOutcome};
use bluetodo_tui::layout::{adjust_scroll, blank_fallback, clamp_index, truncate_text};
use bluetodo_tui::numbers::{i64_to_text, parse_i64_text, parse_u16_text, u64_to_text};
use bluetodo_tui::text::{is_blank_chars, split_words, trim_bounds};

fn chars(s: &str) -> Vec<char> {
    s.chars().collect()
}

#[test]
fn parse_i64_like_std() {
    for text in [
        "0", "42", "-42", "+7", "007", "", "-", "+", "12a", " 1", "9223372036854775807",
        "9223372036854775808", "-9223372036854775808", "-9223372036854775809", "--1", "+-1",
        "99999999999999999999999",
    ] {
        assert_eq!(parse_i64_text(text), text.parse::<i64>().ok(), "{:?}", text);
    }
}

#[test]
fn parse_u16_like_std() {
    for text in ["0", "5877", "65535", "65536", "+1", "-0", "-1", "", "+", "1x", "000065535"] {
        assert_eq!(parse_u16_text(text), text.parse::<u16>().ok(), "{:?}", text);
    }
}

#[test]
fn numbers_to_text_like_std() {
    for v in [0i64, 5, -5, 10, 1234567890, i64::MAX, i64::MIN] {
        assert_eq!(i64_to_text(v), v.to_string());
    }
    for v in [0u64, 9, 10, u64::MAX] {
        assert_eq!(u64_to_text(v), v.to_string());
    }
}

#[test]
fn words_like_split_whitespace() {
    for text in ["", "  ", "a", " a  b\tc\n", "OK seq=1", "\u{3000}x\u{a0}y "] {
        let words: Vec<String> = split_words(&chars(text)).iter().map(|w| w.iter().collect()).collect();
        let expected: Vec<String> = text.split_whitespace().map(|w| w.to_string()).collect();
        assert_eq!(words, expected, "{:?}", text);
    }
}

#[test]
fn trim_like_std() {
    for text in ["", "  ", " a ", "a", "\t x y \n", "\u{2003}z"] {
        let c = chars(text);
        let (a, b) = trim_bounds(&c);
        let trimmed: String = c[a..b].iter().collect();
        assert_eq!(trimmed, text.trim());
        assert_eq!(is_blank_chars(&c), text.trim().is_empty());
    }
}

#[test]
fn truncate_examples() {
    assert_eq!(truncate_text("hello world", 0), "");
    assert_eq!(truncate_text("hello world", 20), "hello world");
    assert_eq!(truncate_text("hello world", 11), "hello world");
    assert_eq!(truncate_text("hello world", 3), "hel");
    assert_eq!(truncate_text("hello world", 8), "hello...");
    assert_eq!(truncate_text("\u{e4}\u{f6}\u{fc}\u{df}xyz", 5), "\u{e4}\u{f6}...");
}

#[test]
fn blank_fallback_examples() {
    assert_eq!(blank_fallback(""), "-");
    assert_eq!(blank_fallback("  \t"), "-");
    assert_eq!(blank_fallback(" x "), " x ");
}

#[test]
fn clamp_examples() {
    assert_eq!(clamp_index(5, 0), 0);
    assert_eq!(clamp_index(5, 3), 2);
    assert_eq!(clamp_index(1, 3), 1);
}

#[test]
fn scroll_examples() {
    assert_eq!(adjust_scroll(0, 0, 0, 10), 0);
    assert_eq!(adjust_scroll(0, 5, 3, 0), 0);
    assert_eq!(adjust_scroll(5, 0, 3, 10), 3);
    assert_eq!(adjust_scroll(2, 5, 3, 10), 2);
    assert_eq!(adjust_scroll(4, 3, 3, 10), 3);
    assert_eq!(adjust_scroll(9, 9, 3, 10), 7);
    assert_eq!(adjust_scroll(1, 4, 5, 3), 0);
}

#[test]
fn scroll_keeps_selection_visible() {
    for len in 0usize..12 {
        for height in 1usize..6 {
            for scroll in 0usize..14 {
                for selected in 0..len {
                    let s = adjust_scroll(selected, scroll, height, len);
                    assert!(s <= selected && selected < s + height);
                    if height <= len {
                        assert!(s + height <= len);
                    } else {
                        assert_eq!(s, 0);
                    }
                }
            }
        }
    }
}

fn args(items: &[&str]) -> Vec<String> {
    items.iter().map(|s| s.to_string()).collect()
}

#[test]
fn args_defaults() {
    match parse_args(&args(&[])).unwrap() {
        ArgsOutcome::Run(c) => {
            assert_eq!(c.host, "127.0.0.1");
            assert_eq!(c.port, 5877);
            assert_eq!(c.token, "");
        }
        ArgsOutcome::Help => panic!("help"),
    }
}

#[test]
fn args_all_options() {
    match parse_args(&args(&["--host", "example.org", "--port", "6000", "--token", "SECRET-REDACTED"])).unwrap() {
        ArgsOutcome::Run(c) => {
            assert_eq!(c.host, "example.org");
            assert_eq!(c.port, 6000);
            assert_eq!(c.token, "SECRET-REDACTED");
        }
        ArgsOutcome::Help => panic!("help"),
    }
}

#[test]
fn args_errors_and_help() {
    assert_eq!(parse_args(&args(&["--host"])).unwrap_err(), "Missing value for --host");
    assert_eq!(parse_args(&args(&["--port"])).unwrap_err(), "Missing value for --port");
    assert_eq!(parse_args(&args(&["--token"])).unwrap_err(), "Missing value for --token");
    assert_eq!(parse_args(&args(&["--port", "70000"])).unwrap_err(), "Invalid --port");
    assert_eq!(parse_args(&args(&["--verbose"])).unwrap_err(), "Unknown argument: --verbose");
    assert!(matches!(parse_args(&args(&["-h", "--bogus"])).unwrap(), ArgsOutcome::Help));
    assert!(matches!(parse_args(&args(&["--port", "1", "--help"])).unwrap(), ArgsOutcome::Help));
    assert_eq!(parse_args(&args(&["--port", "x", "--help"])).unwrap_err(), "Invalid --port");
    assert_eq!(usage(), "Usage: bluetodo-tui [--host HOST] [--port PORT] [--token TOKEN]");
}

#[test]
fn truncate_never_exceeds_width() {
    let text = "abc\u{e4}defghij";
    for max in 0usize..16 {
        let t = truncate_text(text, max);
        assert!(t.chars().count() <= max);
        if text.chars().count() <= max {
            assert_eq!(t, text);
        }
    }
}

#[test]
fn string_from_chars_keeps_every_character() {
    let c: Vec<char> = "x\u{e4}y z".chars().collect();
    assert_eq!(bluetodo_tui::strings::string_from_chars(&c), "x\u{e4}y z");
    assert_eq!(bluetodo_tui::strings::chars_of("a\u{1F600}"), vec!['a', '\u{1F600}']);
}

#[test]
fn number_text_reads_back() {
    for v in [0i64, 1, -1, 42, -9_000, i64::MAX, i64::MIN] {
        assert_eq!(parse_i64_text(&i64_to_text(v)), Some(v));
    }
}
