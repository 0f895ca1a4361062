use pull_trigger::text::{same_text, wire_len};
use pull_trigger::tokens::{is_separator, next_token};

fn all_tokens(text: &str) -> Vec<String> {
    let mut found = Vec::new();
    let mut rest = text;
    while let Some((token, after)) = next_token(rest) {
        found.push(token.to_string());
        rest = after;
    }
    found
}

#[test]
fn empty_text_has_no_token() {
    assert_eq!(next_token(""), None);
}

#[test]
fn whitespace_alone_has_no_token() {
    assert_eq!(next_token(" \t\r\n\x0C  "), None);
}

#[test]
fn single_word_is_its_own_token() {
    assert_eq!(next_token("command:"), Some(("command:", "")));
}

#[test]
fn first_token_and_rest() {
    assert_eq!(next_token("command: git-repo"), Some(("command:", " git-repo")));
}

#[test]
fn leading_whitespace_is_skipped() {
    assert_eq!(next_token("  \t command: x"), Some(("command:", " x")));
}

#[test]
fn tokens_in_order() {
    assert_eq!(all_tokens("command: set-repo /tmp/x"), vec!["command:", "set-repo", "/tmp/x"]);
}

#[test]
fn runs_of_mixed_whitespace_separate_once() {
    assert_eq!(all_tokens("\ta \r\n b\x0C\x0Cc  "), vec!["a", "b", "c"]);
}

#[test]
fn tokens_agree_with_std() {
    let samples = [
        "",
        " ",
        "a",
        " a",
        "a ",
        "a b",
        "command: git-pull",
        "  command:\tset-repo\r/srv/repo  extra\n",
        "caf\u{e9} \u{4e2d}\u{6587}\t\u{1f600} end",
        "a\x0Bb c",
        "a\u{a0}b c",
    ];
    for sample in samples {
        let expected: Vec<String> =
            sample.split_ascii_whitespace().map(|token| token.to_string()).collect();
        assert_eq!(all_tokens(sample), expected, "sample {:?}", sample);
    }
}

#[test]
fn vertical_tab_is_no_separator() {
    assert_eq!(next_token("a\x0Bb c"), Some(("a\x0Bb", " c")));
    assert!(!is_separator('\x0B'));
}

#[test]
fn non_ascii_space_is_no_separator() {
    assert_eq!(next_token("a\u{a0}b"), Some(("a\u{a0}b", "")));
    assert!(!is_separator('\u{a0}'));
}

#[test]
fn the_five_separators() {
    for c in [' ', '\t', '\n', '\x0C', '\r'] {
        assert!(is_separator(c), "{:?}", c);
    }
    for c in ['a', ':', '-', '/', '\0', '\x0B', '\u{2003}'] {
        assert!(!is_separator(c), "{:?}", c);
    }
}

#[test]
fn separators_agree_with_std() {
    for code in 0u32..0x300 {
        if let Some(c) = char::from_u32(code) {
            assert_eq!(is_separator(c), c.is_ascii_whitespace(), "{:?}", c);
        }
    }
}

#[test]
fn multibyte_tokens_are_cut_at_characters() {
    assert_eq!(
        next_token(" \u{4e2d}\u{6587} \u{e9}t\u{e9}"),
        Some(("\u{4e2d}\u{6587}", " \u{e9}t\u{e9}"))
    );
}

#[test]
fn rest_holds_the_remaining_tokens() {
    let (first, rest) = next_token("one two three").unwrap();
    assert_eq!(first, "one");
    let (second, rest) = next_token(rest).unwrap();
    assert_eq!(second, "two");
    let (third, rest) = next_token(rest).unwrap();
    assert_eq!(third, "three");
    assert_eq!(next_token(rest), None);
}

#[test]
fn same_text_compares_characters() {
    assert!(same_text("", ""));
    assert!(same_text("command:", "command:"));
    assert!(!same_text("command:", "command"));
    assert!(!same_text("command:", "Command:"));
    assert!(!same_text("git-pull", "git-repo"));
    assert!(same_text("caf\u{e9}", "caf\u{e9}"));
    assert!(!same_text("caf\u{e9}", "cafe\u{301}"));
}

#[test]
fn wire_len_counts_bytes() {
    assert_eq!(wire_len(""), 0);
    assert_eq!(wire_len("Repo: /"), 7);
    assert_eq!(wire_len("\u{e9}"), 2);
    assert_eq!(wire_len("\u{4e2d}\u{6587}"), 6);
    assert_eq!(wire_len("\u{1f600}"), 4);
}
