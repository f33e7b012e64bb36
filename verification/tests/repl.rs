use three_body_lang::lexer::nfc_normalize;
use three_body_lang::repl::{complete, extract_word, Helper, Validation};

#[test]
fn test_extract_word() {
    assert_eq!(extract_word("", 0), (0, "".to_owned()));
    assert_eq!(extract_word("abc", 3), (0, "abc".to_owned()));
    assert_eq!(extract_word("abc", 2), (0, "ab".to_owned()));
    assert_eq!(extract_word("let ab", 6), (4, "ab".to_owned()));
    assert_eq!(extract_word("let ab", 4), (4, "".to_owned()));
    assert_eq!(extract_word("a b c", 5), (2, "b c".to_owned()));
    assert_eq!(extract_word(" x", 2), (1, "x".to_owned()));
    assert_eq!(extract_word("\u{5e7f}\u{64ad} \u{5e7f}", 4), (3, "\u{5e7f}".to_owned()));
    assert_eq!(extract_word("a\nb", 3), (0, "a\nb".to_owned()));
}

#[test]
fn test_complete() {
    let names = vec![
        "len".to_owned(),
        "last".to_owned(),
        "let_it".to_owned(),
        "first".to_owned(),
        "l".to_owned(),
    ];
    assert_eq!(complete(&names, "l"), vec!["len", "last", "let_it", "l"]);
    assert_eq!(complete(&names, "le"), vec!["len", "let_it"]);
    assert_eq!(complete(&names, "len"), vec!["len"]);
    assert_eq!(complete(&names, "lens"), Vec::<String>::new());
    assert_eq!(complete(&names, ""), names);
    assert_eq!(complete(&vec![], "a"), Vec::<String>::new());
}

#[test]
fn test_validate() {
    let helper = Helper::new();
    assert!(matches!(helper.validate("let a = 1;"), Validation::Valid));
    assert!(matches!(helper.validate(""), Validation::Valid));
    assert!(matches!(helper.validate("if (a) { 1"), Validation::Incomplete));
    assert!(matches!(helper.validate("fn(x) { x"), Validation::Incomplete));
    assert!(matches!(helper.validate("fn("), Validation::Incomplete));
    assert!(matches!(helper.validate("let"), Validation::Incomplete));
    assert!(matches!(helper.validate("let a ! 1"), Validation::Invalid(_)));
    assert!(matches!(helper.validate("if a { 1 }"), Validation::Invalid(_)));
    assert!(!helper.validate_while_typing());
}

#[test]
fn test_lexer_hands_out_the_normal_form() {
    assert_eq!(nfc_normalize("n\u{303}"), "\u{f1}");
}
