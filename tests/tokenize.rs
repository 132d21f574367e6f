use snip::tokenize::{split_words, stem, strip_punctuation};

#[test]
fn split_mutiline_string() {
    let s = r#"Lorem ipsum (dolor) sit amet, consectetur
second line?

that was an [empty] line.
"#;
    let expect: Vec<&str> = vec![
        "Lorem",
        "ipsum",
        "dolor",
        "sit",
        "amet",
        "consectetur",
        "second",
        "line",
        "that",
        "was",
        "an",
        "empty",
        "line",
    ];
    let split = split_words(s);
    assert_eq!(expect, split);
}

#[test]
fn split_short_text_strips_one_mark_per_side() {
    let split = split_words("Lorem ipsum (dolor) sit amet,\nsecond line?");
    assert_eq!(split, vec!["Lorem", "ipsum", "dolor", "sit", "amet", "second", "line"]);
}

#[test]
fn split_clean_text_gives_its_words() {
    assert_eq!(split_words("alpha beta gamma"), vec!["alpha", "beta", "gamma"]);
    assert_eq!(split_words("one"), vec!["one"]);
}

#[test]
fn split_empty_text_gives_one_empty_token() {
    assert_eq!(split_words(""), vec![""]);
    assert_eq!(split_words(" \t\n "), vec![""]);
}

#[test]
fn split_trims_and_collapses_white_space() {
    assert_eq!(split_words("  a \t\n b  "), vec!["a", "b"]);
    assert_eq!(split_words("a\u{3000}b"), vec!["a", "b"]);
}

#[test]
fn strip_removes_at_most_one_per_side() {
    assert_eq!(strip_punctuation("((x))"), "(x)");
    assert_eq!(strip_punctuation("amet,"), "amet");
    assert_eq!(strip_punctuation("\"quoted\""), "quoted");
    assert_eq!(strip_punctuation("[a]."), "a]");
    assert_eq!(strip_punctuation("plain"), "plain");
    assert_eq!(strip_punctuation("mid.dle"), "mid.dle");
}

#[test]
fn strip_short_tokens() {
    assert_eq!(strip_punctuation(""), "");
    assert_eq!(strip_punctuation("("), "");
    assert_eq!(strip_punctuation("()"), "");
    assert_eq!(strip_punctuation("(()"), "(");
}

#[test]
fn stem_lowers_and_stems() {
    assert_eq!(stem("Running"), "run");
    assert_eq!(stem("cats"), "cat");
    assert_eq!(stem("CONNECTED"), "connect");
}
