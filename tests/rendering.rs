use pastebin::{
    is_highlightable, output_mode, split_lines, starts_with, Highlighter, OutputMode, PasteError,
    Rendered,
};

#[test]
fn curl_and_unknown_clients_get_terminal_output() {
    assert_eq!(output_mode(None), OutputMode::Terminal);
    assert_eq!(output_mode(Some("curl/8.4.0")), OutputMode::Terminal);
    assert_eq!(output_mode(Some("Mozilla/5.0 (X11; Linux x86_64)")), OutputMode::Html);
    assert_eq!(output_mode(Some("curl")), OutputMode::Html);
    assert_eq!(output_mode(Some("")), OutputMode::Html);
}

#[test]
fn prefix_test() {
    assert!(starts_with("curl/7", "curl/"));
    assert!(starts_with("abc", ""));
    assert!(!starts_with("cur", "curl/"));
    assert!(!starts_with("wget/1", "curl/"));
}

#[test]
fn plain_text_is_not_highlightable() {
    assert!(!is_highlightable(None));
    assert!(!is_highlightable(Some("Plain Text")));
    assert!(is_highlightable(Some("Rust")));
}

#[test]
fn lines_follow_str_lines() {
    for text in ["", "\n", "a", "a\n", "a\r\nb", "a\r\nb\r\n", "x\r", "\n\nz", "one\ntwo\n\nthree"] {
        let expected: Vec<String> = text.lines().map(|l| l.to_string()).collect();
        assert_eq!(split_lines(text), expected, "text {:?}", text);
    }
    assert_eq!(split_lines("a\r\nb\n"), vec!["a".to_string(), "b".to_string()]);
}

#[test]
fn highlighting_known_and_unknown_languages() {
    let hl = Highlighter::new();
    let code = "fn main() {\n    println!(\"hi\");\n}\n";
    match hl.highlight(code, "rs", OutputMode::Terminal) {
        Ok(Rendered::Terminal(t)) => {
            assert!(t.contains("\x1b["));
            assert_eq!(t.matches('\n').count(), 3);
        }
        other => panic!("unexpected {:?}", other),
    }
    match hl.highlight(code, "rs", OutputMode::Html) {
        Ok(Rendered::Html(h)) => assert!(h.contains("<pre")),
        other => panic!("unexpected {:?}", other),
    }
    assert_eq!(
        hl.highlight(code, "rs", OutputMode::Terminal),
        hl.highlight(code, "rs", OutputMode::Terminal)
    );
    assert_eq!(hl.highlight(code, "doesnotexist", OutputMode::Html), Err(PasteError::HighlightUnavailable));
    assert_eq!(hl.highlight(code, "txt", OutputMode::Terminal), Err(PasteError::HighlightUnavailable));
}
