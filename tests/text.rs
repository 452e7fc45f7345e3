use telegram_bridge::{clean_file_name, safe_text, split_quoted};

#[test]
fn test_quote_splitting() {
    let valid_cases = &[
        ("first", ("first", "")),
        ("    first", ("first", "")),
        ("    first   ", ("first", "   ")),
        ("first second", ("first", " second")),
        ("first second third", ("first", " second third")),
        ("first \"second third\"", ("first", " \"second third\"")),
        ("\"first with spaces\" second", ("first with spaces", " second")),
        ("    first    second   ", ("first", "    second   ")),
        ("    first second   ", ("first", " second   ")),
        (r#" "fir\"st with quote" remainder  "#, ("fir\"st with quote", " remainder  ")),
    ];

    assert_eq!(split_quoted(""), None);

    for &(input, (prefix, suffix)) in valid_cases {
        assert_eq!(split_quoted(input), Some((prefix.to_string(), suffix)));
    }
}

#[test]
fn split_quoted_blank_input_has_no_token() {
    assert_eq!(split_quoted("   "), None);
    assert_eq!(split_quoted("\t \n "), None);
}

#[test]
fn split_quoted_escaped_quote_token() {
    assert_eq!(split_quoted(r#""fir\"st" x"#), Some(("fir\"st".to_string(), " x")));
}

#[test]
fn split_quoted_empty_quotes_give_empty_token() {
    assert_eq!(split_quoted("\"\" x"), Some((String::new(), " x")));
}

#[test]
fn safe_text_collapses_marker_run() {
    assert_eq!(safe_text("//tg-document --file-id x"), "/tg-document --file-id x");
    assert_eq!(safe_text("////send"), "/send");
    assert_eq!(safe_text("/start"), "/start");
    assert_eq!(safe_text("//"), "/");
}

#[test]
fn safe_text_without_marker_is_unchanged() {
    assert_eq!(safe_text("hello //world"), "hello //world");
    assert_eq!(safe_text(""), "");
    assert_eq!(safe_text(" //x"), " //x");
}

#[test]
fn clean_file_name_keeps_safe_characters() {
    assert_eq!(clean_file_name("my photo (1).jpg"), "myphoto1.jpg");
    assert_eq!(clean_file_name("a_b-c.TXT"), "a_b-c.TXT");
    assert_eq!(clean_file_name("../../etc/passwd"), "....etcpasswd");
}

#[test]
fn clean_file_name_may_be_empty() {
    assert_eq!(clean_file_name("()[] !"), "");
    assert_eq!(clean_file_name("日本語"), "");
}
