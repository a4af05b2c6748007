use paperback_cli::codewords::split_codewords;
use paperback_cli::echo::{line_source, resolve_echo, LineSource};
use paperback_cli::number::parse_unsigned;

#[test]
fn echo_flags_decide_when_given() {
    assert!(resolve_echo(true, false, true));
    assert!(resolve_echo(true, false, false));
    assert!(!resolve_echo(false, true, true));
    assert!(!resolve_echo(false, true, false));
}

#[test]
fn echo_is_off_by_default_on_a_terminal() {
    assert!(!resolve_echo(false, false, true));
    assert!(resolve_echo(false, false, false));
    assert_eq!(line_source(resolve_echo(false, false, true), true), LineSource::Terminal);
}

#[test]
fn piped_input_is_always_read_plainly() {
    for echo_flag in [false, true] {
        for no_echo_flag in [false, true] {
            let echo = resolve_echo(echo_flag, no_echo_flag, false);
            assert_eq!(line_source(echo, false), LineSource::Stdin);
        }
    }
}

#[test]
fn line_source_uses_terminal_only_without_echo_on_a_terminal() {
    assert_eq!(line_source(true, true), LineSource::Stdin);
    assert_eq!(line_source(true, false), LineSource::Stdin);
    assert_eq!(line_source(false, false), LineSource::Stdin);
    assert_eq!(line_source(false, true), LineSource::Terminal);
}

#[test]
fn codewords_split_on_any_white_space() {
    assert_eq!(
        split_codewords("  alpha bravo\tcharlie\n delta  "),
        vec!["alpha", "bravo", "charlie", "delta"]
    );
    assert_eq!(split_codewords(""), Vec::<String>::new());
    assert_eq!(split_codewords(" \t\r\n"), Vec::<String>::new());
    assert_eq!(split_codewords("one"), vec!["one"]);
    assert_eq!(split_codewords("a\u{3000}b\u{a0}c\u{2003}d"), vec!["a", "b", "c", "d"]);
    assert_eq!(split_codewords("naïve café"), vec!["naïve", "café"]);
}

#[test]
fn codewords_agree_with_split_whitespace() {
    for line in ["x  y", " lead", "trail ", "\u{85}mid\u{1680}dle\u{2028}", "a\u{200b}b"] {
        let expected: Vec<String> = line.split_whitespace().map(|s| s.to_owned()).collect();
        assert_eq!(split_codewords(line), expected);
    }
}

#[test]
fn codewords_are_never_empty_or_spaced() {
    for word in split_codewords("  many   spaces\t\tand\ttabs  ") {
        assert!(!word.is_empty());
        assert!(!word.chars().any(char::is_whitespace));
    }
}

#[test]
fn unsigned_arguments_parse_like_u32_from_str() {
    for arg in ["0", "7", "+7", "007", "4294967295", "4294967296", "", "+", "-", "-1", "1 ", " 1", "12a", "99999999999", "+-1", "٣"] {
        assert_eq!(parse_unsigned(arg), arg.parse::<u32>().ok(), "argument {:?}", arg);
    }
    assert_eq!(parse_unsigned("4294967295"), Some(u32::MAX));
    assert_eq!(parse_unsigned("+0012"), Some(12));
}
