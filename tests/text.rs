use rpn::dispatch::{number_kind, same_text, split_type_tag, NumberKind};
use rpn::lex::{is_space_char, split_words};

#[test]
fn splits_on_any_whitespace() {
    assert_eq!(split_words("  1\t2\n+ "), vec!["1", "2", "+"]);
    assert_eq!(split_words("a\u{2003}b"), vec!["a", "b"]);
    assert!(split_words("").is_empty());
    assert!(split_words(" \t ").is_empty());
}

#[test]
fn split_matches_std() {
    for s in ["x", " ab  cd ", "é ü\u{85}z", "1 2 3 +", "\u{205f}q\u{3000}"] {
        let ours = split_words(s);
        let theirs: Vec<String> = s.split_whitespace().map(|w| w.to_string()).collect();
        assert_eq!(ours, theirs, "{s:?}");
    }
}

#[test]
fn whitespace_matches_std() {
    for u in 0u32..0x3100 {
        if let Some(c) = char::from_u32(u) {
            assert_eq!(is_space_char(c), c.is_whitespace(), "{u:x}");
        }
    }
}

#[test]
fn tag_before_first_colon() {
    assert_eq!(split_type_tag("int:7 2 /"), ("int", "7 2 /"));
    assert_eq!(split_type_tag("a:b:c"), ("a", "b:c"));
    assert_eq!(split_type_tag(":1"), ("", "1"));
}

#[test]
fn line_without_tag_is_float() {
    assert_eq!(split_type_tag("1 2 +"), ("float", "1 2 +"));
}

#[test]
fn known_tags() {
    assert_eq!(number_kind("float"), Some(NumberKind::Float));
    assert_eq!(number_kind("int"), Some(NumberKind::Int));
    assert_eq!(number_kind("Int"), None);
    assert_eq!(number_kind("complex"), None);
    assert!(same_text("ab", "ab"));
    assert!(!same_text("ab", "abc"));
}
