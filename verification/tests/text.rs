use bulletin_scan::text::{find_first, is_space, matches_at, split_segments, strip_layout, trim};

#[test]
fn layout_is_removed() {
    assert_eq!(strip_layout("11 月\n20\r\n日 1 50 万"), "11月20日150万");
    assert_eq!(strip_layout(""), "");
    assert_eq!(strip_layout(" \n\r"), "");
}

#[test]
fn other_whitespace_stays() {
    assert_eq!(strip_layout("a\tb\u{3000}c"), "a\tb\u{3000}c");
}

#[test]
fn first_occurrence_is_found_by_character_offset() {
    assert_eq!(find_first("全国检测阳性率，检测阳性率", "检测阳性率"), Some(2));
    assert_eq!(find_first("abcabc", "bc"), Some(1));
    assert_eq!(find_first("abc", "abc"), Some(0));
    assert_eq!(find_first("abc", ""), Some(0));
    assert_eq!(find_first("", ""), Some(0));
}

#[test]
fn missing_phrase_is_not_found() {
    assert_eq!(find_first("abc", "abcd"), None);
    assert_eq!(find_first("全国检测", "阳性率"), None);
    assert_eq!(find_first("", "a"), None);
}

#[test]
fn phrase_at_offset() {
    assert!(matches_at("检测阳性率", "阳性", 2));
    assert!(!matches_at("检测阳性率", "阳性", 1));
    assert!(matches_at("abc", "", 3));
}

#[test]
fn text_is_cut_at_each_delimiter() {
    assert_eq!(split_segments("甲，乙；丙。丁"), vec!["甲", "乙", "丙", "丁"]);
    assert_eq!(split_segments("甲，"), vec!["甲", ""]);
    assert_eq!(split_segments("，，"), vec!["", "", ""]);
    assert_eq!(split_segments(""), vec![""]);
}

#[test]
fn ascii_punctuation_does_not_cut() {
    assert_eq!(split_segments("a,b;c.d"), vec!["a,b;c.d"]);
}

#[test]
fn ends_are_trimmed() {
    assert_eq!(trim("  \n title \t"), "title");
    assert_eq!(trim("\u{3000}标 题\u{a0}"), "标 题");
    assert_eq!(trim(" \r\n "), "");
    assert_eq!(trim(""), "");
    assert_eq!(trim("a"), "a");
}

#[test]
fn whitespace_agrees_with_the_standard_library() {
    let mut code: u32 = 0;
    while code < 0x11000 {
        if let Some(c) = char::from_u32(code) {
            assert_eq!(is_space(c), c.is_whitespace());
        }
        code += 1;
    }
}
