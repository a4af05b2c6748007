use paperback_cli::lines::{hidden_line, plain_line, read_lines_until_blank, LineCollector};

// read_lines_until_blank() is the terminating logic behind every
// interactive multiline prompt (codewords, shard/document payloads),
// with the actual line source abstracted behind a closure.

fn lines_source(
    lines: Vec<Option<&'static str>>,
) -> impl FnMut() -> Result<Option<String>, anyhow::Error> {
    let mut lines = lines.into_iter();
    move || Ok(lines.next().flatten().map(|s| s.to_string()))
}

#[test]
fn stops_on_blank_line() {
    let result = read_lines_until_blank(lines_source(vec![
        Some("first"),
        Some("second"),
        Some(""),
        Some("never read"),
    ]))
    .unwrap();
    assert_eq!(result, "first\nsecond");
}

#[test]
fn handles_eof_without_blank_line() {
    let result = read_lines_until_blank(lines_source(vec![Some("only line"), None])).unwrap();
    assert_eq!(result, "only line");
}

#[test]
fn empty_input_yields_empty_string() {
    let result = read_lines_until_blank(lines_source(vec![None])).unwrap();
    assert_eq!(result, "");
}

#[test]
fn no_line_is_read_after_the_blank_one() {
    let mut calls = 0;
    let result = read_lines_until_blank(|| -> Result<Option<String>, ()> {
        calls += 1;
        Ok(match calls {
            1 => Some("a".to_string()),
            2 => Some(String::new()),
            _ => panic!("read past the blank line"),
        })
    });
    assert_eq!(result, Ok("a".to_string()));
    assert_eq!(calls, 2);
}

#[test]
fn read_error_is_passed_on() {
    let mut calls = 0;
    let result = read_lines_until_blank(|| {
        calls += 1;
        if calls == 1 {
            Ok(Some("kept".to_string()))
        } else {
            Err("broken pipe")
        }
    });
    assert_eq!(result, Err("broken pipe"));
}

#[test]
fn plain_line_trims_line_breaks() {
    assert_eq!(plain_line(0, ""), None);
    assert_eq!(plain_line(0, "ignored\n"), None);
    assert_eq!(plain_line(6, "hello\n"), Some("hello".to_string()));
    assert_eq!(plain_line(8, "hello\r\n"), Some("hello".to_string()));
    assert_eq!(plain_line(9, "a b\n\r\n\r\n"), Some("a b".to_string()));
    assert_eq!(plain_line(1, "\n"), Some(String::new()));
    assert_eq!(plain_line(5, "a\nb\n"), Some("a\nb".to_string()));
    assert_eq!(plain_line(3, " x "), Some(" x ".to_string()));
    assert_eq!(plain_line(5, "é\r"), Some("é".to_string()));
}

#[test]
fn hidden_read_failure_ends_input() {
    assert_eq!(hidden_line::<()>(Ok("secret".to_string())), Some("secret".to_string()));
    assert_eq!(hidden_line(Err::<String, _>("no terminal")), None);
}

#[test]
fn collector_keeps_lines_until_the_first_blank_read() {
    let mut c = LineCollector::new();
    assert!(!c.has_ended());
    assert_eq!(c.joined(), "");
    assert!(!c.push_read(Some("one".to_string())));
    assert!(!c.push_read(Some("two words".to_string())));
    assert_eq!(c.joined(), "one\ntwo words");
    assert!(c.push_read(Some(String::new())));
    assert!(c.has_ended());
    // Once input has ended, further reads change nothing.
    assert!(c.push_read(Some("late".to_string())));
    assert!(c.push_read(None));
    assert_eq!(c.joined(), "one\ntwo words");
}

#[test]
fn collector_ends_at_end_of_input() {
    let mut c = LineCollector::new();
    assert!(!c.push_read(Some("x".to_string())));
    assert!(c.push_read(None));
    assert_eq!(c.joined(), "x");
    let mut empty = LineCollector::new();
    assert!(empty.push_read(None));
    assert_eq!(empty.joined(), "");
}

#[test]
fn entered_lines_read_back_split_at_newlines() {
    for lines in [
        vec![],
        vec!["one"],
        vec!["one", "two", "three"],
        vec!["mb4a2 ", " x", "é"],
    ] {
        let mut reads = lines.iter().map(|l| Some(l.to_string())).collect::<Vec<_>>();
        reads.push(None);
        let mut reads = reads.into_iter();
        let s = read_lines_until_blank(|| Ok::<_, ()>(reads.next().flatten())).unwrap();
        if lines.is_empty() {
            assert_eq!(s, "");
        } else {
            assert_eq!(s.split('\n').map(String::from).collect::<Vec<_>>(), lines);
        }
    }
}
