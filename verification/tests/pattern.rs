use bulletin_scan::extract::{DATE_COUNT_PATTERN, DATE_PERCENT_PATTERN};
use bulletin_scan::pattern::{
    capture_pair, capture_whole, match_pair, match_whole, nearest_match, Captured,
};

fn owned(parts: &[&str]) -> Vec<String> {
    parts.iter().map(|s| s.to_string()).collect()
}

fn pair(a: &str, b: &str) -> Option<(String, String)> {
    Some((a.to_string(), b.to_string()))
}

#[test]
fn pair_is_read_from_groups_one_and_two() {
    let hit = Captured::Hit(vec![
        Some("abc".to_string()),
        Some("a".to_string()),
        Some("c".to_string()),
    ]);
    assert_eq!(capture_pair(&hit), pair("a", "c"));
    assert_eq!(capture_whole(&hit), Some("abc".to_string()));
}

#[test]
fn pair_needs_both_groups() {
    let hit = Captured::Hit(vec![Some("abc".to_string()), None, Some("c".to_string())]);
    assert_eq!(capture_pair(&hit), None);
    let short = Captured::Hit(vec![Some("abc".to_string()), Some("a".to_string())]);
    assert_eq!(capture_pair(&short), None);
    assert_eq!(capture_whole(&short), Some("abc".to_string()));
}

#[test]
fn miss_and_invalid_give_nothing() {
    assert_eq!(capture_pair(&Captured::Miss), None);
    assert_eq!(capture_pair(&Captured::Invalid), None);
    assert_eq!(capture_whole(&Captured::Miss), None);
    assert_eq!(capture_whole(&Captured::Invalid), None);
    assert_eq!(capture_whole(&Captured::Hit(vec![])), None);
    assert_eq!(capture_whole(&Captured::Hit(vec![None])), None);
}

#[test]
fn count_pattern_captures_date_and_count() {
    assert_eq!(
        match_pair(DATE_COUNT_PATTERN, "11月20日共检测150万人次"),
        pair("11月20日", "150万")
    );
    assert_eq!(
        match_pair(DATE_COUNT_PATTERN, "2022年12月9日共检测3.5万人次"),
        pair("2022年12月9日", "3.5万")
    );
}

#[test]
fn count_pattern_allows_a_gap_of_six_at_most() {
    assert_eq!(
        match_pair(DATE_COUNT_PATTERN, "1月2日一二三四五六7"),
        pair("1月2日", "7")
    );
    assert_eq!(match_pair(DATE_COUNT_PATTERN, "1月2日一二三四五六七8"), None);
    assert_eq!(
        match_pair(DATE_COUNT_PATTERN, "11月20日全国共报告检测数150万人次"),
        None
    );
}

#[test]
fn percent_pattern_captures_date_and_rate() {
    assert_eq!(
        match_pair(DATE_PERCENT_PATTERN, "11月22日为5.2%"),
        pair("11月22日", "5.2%")
    );
    assert_eq!(
        match_pair(DATE_PERCENT_PATTERN, "11月22日为5.20"),
        pair("11月22日", "5.20")
    );
}

#[test]
fn percent_pattern_needs_a_gap() {
    assert_eq!(match_pair(DATE_PERCENT_PATTERN, "11月22日5.2%"), None);
    assert_eq!(
        match_pair(DATE_PERCENT_PATTERN, "11月22日15.2%"),
        pair("11月22日", "5.2%")
    );
}

#[test]
fn percent_pattern_allows_a_gap_of_four_at_most() {
    assert_eq!(
        match_pair(DATE_PERCENT_PATTERN, "1月2日一二三四5.6%"),
        pair("1月2日", "5.6%")
    );
    assert_eq!(match_pair(DATE_PERCENT_PATTERN, "1月2日一二三四五5.6%"), None);
}

#[test]
fn percent_pattern_needs_a_fractional_part() {
    assert_eq!(match_pair(DATE_PERCENT_PATTERN, "11月22日为5%"), None);
    assert_eq!(match_pair(DATE_PERCENT_PATTERN, "11月22日为5"), None);
    assert_eq!(match_pair(DATE_PERCENT_PATTERN, "11月22日为5.%"), None);
    assert_eq!(
        match_pair(DATE_PERCENT_PATTERN, "11月22日为15.0%"),
        pair("11月22日", "15.0%")
    );
}

#[test]
fn invalid_pattern_gives_nothing() {
    assert_eq!(match_pair("(", "abc"), None);
    assert_eq!(match_whole("(", "abc"), None);
}

#[test]
fn whole_match_is_the_leftmost() {
    assert_eq!(
        match_whole("\\d{4}-\\d{2}-\\d{2}", "on 2023-01-25 and 2023-02-01"),
        Some("2023-01-25".to_string())
    );
    assert_eq!(match_whole("\\d{4}-\\d{2}-\\d{2}", "2023-1-25"), None);
}

#[test]
fn last_matching_segment_wins() {
    let segs = owned(&["11月1日检测100万人次", "11月20日共检测150万人次", "其中无日期", ""]);
    assert_eq!(nearest_match(DATE_COUNT_PATTERN, &segs), pair("11月20日", "150万"));
}

#[test]
fn earlier_segment_is_used_when_later_ones_miss() {
    let segs = owned(&["11月1日检测100万人次", "无", ""]);
    assert_eq!(nearest_match(DATE_COUNT_PATTERN, &segs), pair("11月1日", "100万"));
}

#[test]
fn no_matching_segment_gives_nothing() {
    assert_eq!(nearest_match(DATE_COUNT_PATTERN, &owned(&["甲", "乙"])), None);
    assert_eq!(nearest_match(DATE_COUNT_PATTERN, &Vec::new()), None);
}
