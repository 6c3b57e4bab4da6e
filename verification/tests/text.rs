use rust_lib::text::first_word;

#[test]
fn first_word_of_two() {
    let s = String::from("hello world");
    assert_eq!(first_word(&s), "hello");
}

#[test]
fn first_word_without_space_is_everything() {
    assert_eq!(first_word(&String::from("hello")), "hello");
    assert_eq!(first_word(&String::new()), "");
}

#[test]
fn first_word_behind_a_leading_space_is_empty() {
    assert_eq!(first_word(&String::from(" hello")), "");
    assert_eq!(first_word(&String::from(" ")), "");
}

#[test]
fn first_word_stops_at_the_first_space_only() {
    assert_eq!(first_word(&String::from("a b c")), "a");
    assert_eq!(first_word(&String::from("ab  cd")), "ab");
}

#[test]
fn first_word_ignores_other_white_space() {
    assert_eq!(first_word(&String::from("tab\tnew\nline end")), "tab\tnew\nline");
    assert_eq!(first_word(&String::from("no\u{a0}break")), "no\u{a0}break");
}

#[test]
fn first_word_of_text_beyond_ascii() {
    assert_eq!(first_word(&String::from("héllo wörld")), "héllo");
    assert_eq!(first_word(&String::from("你好 世界")), "你好");
    assert_eq!(first_word(&String::from("🦀🦀 crab")), "🦀🦀");
    assert_eq!(first_word(&String::from("完成项目一")), "完成项目一");
}

#[test]
fn first_word_borrows_from_the_string() {
    let s = String::from("hello world");
    let word = first_word(&s);
    assert!(std::ptr::eq(word.as_ptr(), s.as_ptr()));
}
