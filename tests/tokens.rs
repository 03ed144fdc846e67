use codemerge::tokens::count_tokens;

#[test]
fn test_token_counting() {
    let text = "Hello, world!";
    assert!(count_tokens(text).unwrap() > 0);
}

#[test]
fn test_token_caching() {
    let text = "This is a test of the token cache.".repeat(10);

    let count1 = count_tokens(&text);
    let count2 = count_tokens(&text);

    assert_eq!(count1, count2);
}

#[test]
fn empty_text_has_no_tokens() {
    assert_eq!(count_tokens(""), Some(0));
}
