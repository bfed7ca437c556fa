use htty::text::{join_lines, push_decimal, same_text, split_on};

fn decimal_string(n: u128) -> String {
    let mut text = String::new();
    push_decimal(&mut text, n);
    text
}

#[test]
fn numbers_are_written_in_decimal() {
    assert_eq!(decimal_string(0), "0");
    assert_eq!(decimal_string(7), "7");
    assert_eq!(decimal_string(10), "10");
    assert_eq!(decimal_string(1234567890), "1234567890");
    assert_eq!(decimal_string(u128::MAX), u128::MAX.to_string());
    let mut text = "n=".to_string();
    push_decimal(&mut text, 405);
    assert_eq!(text, "n=405");
}

#[test]
fn lines_are_joined_with_line_feeds() {
    assert_eq!(join_lines(&Vec::new()), "");
    assert_eq!(join_lines(&vec!["a".to_string()]), "a");
    assert_eq!(join_lines(&vec!["a".to_string(), "".to_string(), "b".to_string()]), "a\n\nb");
}

#[test]
fn text_is_split_at_every_separator() {
    assert_eq!(split_on("", ','), vec![""]);
    assert_eq!(split_on("a", ','), vec!["a"]);
    assert_eq!(split_on("a,b", ','), vec!["a", "b"]);
    assert_eq!(split_on(",a,,b,", ','), vec!["", "a", "", "b", ""]);
    assert_eq!(split_on("é,日本", ','), vec!["é", "日本"]);
    for text in ["", "init", "init,output", ",", "a,,b,"] {
        let expected: Vec<String> = text.split(',').map(|s| s.to_string()).collect();
        assert_eq!(split_on(text, ','), expected);
    }
}

#[test]
fn texts_are_compared_by_their_characters() {
    assert!(same_text("exit", "exit"));
    assert!(!same_text("exit", "exit "));
    assert!(same_text("", ""));
}
