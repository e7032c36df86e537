use cache_cat::pub_sub::matches_pattern;

#[test]
fn a_pattern_without_special_bytes_is_a_name() {
    assert!(matches_pattern(b"news", b"news"));
    assert!(!matches_pattern(b"news", b"new"));
    assert!(!matches_pattern(b"new", b"news"));
    assert!(matches_pattern(b"", b""));
    assert!(!matches_pattern(b"a", b""));
}

#[test]
fn a_star_takes_any_bytes() {
    assert!(matches_pattern(b"", b"*"));
    assert!(matches_pattern(b"anything", b"*"));
    assert!(matches_pattern(b"news.art", b"news.*"));
    assert!(matches_pattern(b"news.", b"news.*"));
    assert!(!matches_pattern(b"new.art", b"news.*"));
    assert!(matches_pattern(b"abcbc", b"a*bc"));
    assert!(!matches_pattern(b"abcbd", b"a*bc"));
    assert!(matches_pattern(b"abc", b"**c"));
}

#[test]
fn a_question_mark_takes_one_byte() {
    assert!(matches_pattern(b"hello", b"h?llo"));
    assert!(!matches_pattern(b"hllo", b"h?llo"));
    assert!(!matches_pattern(b"", b"?"));
    assert!(matches_pattern(b"ab", b"*?"));
    assert!(matches_pattern(b"?", b"?"));
}
