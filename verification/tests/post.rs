use bulletin_scan::extract::MARKER;
use bulletin_scan::index::PostReference;
use bulletin_scan::post::{make_record, record_for, scan_paragraphs, scan_post};

fn owned(parts: &[&str]) -> Vec<String> {
    parts.iter().map(|s| s.to_string()).collect()
}

fn reference() -> PostReference {
    PostReference {
        title: "通报".to_string(),
        date: "2023-01-25".to_string(),
        link: "https://example.org/a.html".to_string(),
    }
}

#[test]
fn first_reporting_paragraph_is_used() {
    let paragraphs = owned(&[
        "近期情况如下。",
        "11月20日共检测150万人次，检测阳性率11月22日为5.2%",
        "12月1日共检测9万人次，检测阳性率12月2日为1.5%",
    ]);
    let f = scan_paragraphs(&paragraphs, MARKER).unwrap();
    assert_eq!(f.count_date, "11月20日");
    assert_eq!(f.positive_percent, "5.2%");
}

#[test]
fn paragraph_with_marker_and_no_figures_is_passed_over() {
    let paragraphs = owned(&[
        "检测阳性率持续下降。",
        "12月1日共检测9万人次，检测阳性率12月2日为1.5%",
    ]);
    let f = scan_paragraphs(&paragraphs, MARKER).unwrap();
    assert_eq!(f.count_date, "12月1日");
    assert_eq!(f.count.mantissa, "9");
    assert!(f.count.scaled);
    assert_eq!(f.positive_percent, "1.5%");
    assert_eq!(f.positive_percent_date, "12月2日");
}

#[test]
fn paragraphs_without_marker_report_nothing() {
    assert!(scan_paragraphs(&owned(&["甲", "乙"]), MARKER).is_none());
    assert!(scan_paragraphs(&Vec::new(), MARKER).is_none());
}

#[test]
fn post_without_marker_gives_a_record_without_data() {
    let record = make_record(reference(), &owned(&["近期情况如下。", "11月20日共检测150万人次。"]));
    assert!(record.data.is_none());
    assert_eq!(record.post.title, "通报");
    assert_eq!(record.post.date, "2023-01-25");
    assert_eq!(record.post.link, "https://example.org/a.html");
}

#[test]
fn post_with_figures_gives_a_record_with_data() {
    let record = make_record(
        reference(),
        &owned(&["11月20日共检测150万人次，检测阳性率11月22日为5.2%"]),
    );
    let data = record.data.unwrap();
    assert_eq!(data.count_date, "11月20日");
    assert_eq!(record.post.link, "https://example.org/a.html");
}

#[test]
fn page_paragraphs_are_scanned_in_document_order() {
    let body = "<html><body><div class=\"TRS_Editor\"><div class=\"TRS_Editor\">\
        <p>近期情况如下。</p>\
        <p>11月20日共检测<span>150</span>万人次，\n 检测阳性率11月22日为 5.2%</p>\
        <p>12月1日共检测9万人次，检测阳性率12月2日为1.5%</p>\
        </div></div></body></html>";
    let f = scan_post(body).unwrap().unwrap();
    assert_eq!(f.count_date, "11月20日");
    assert_eq!(f.count.mantissa, "150");
    assert_eq!(f.positive_percent, "5.2%");
    assert_eq!(f.positive_percent_date, "11月22日");
}

#[test]
fn paragraphs_outside_the_container_are_not_read() {
    let body = "<html><body><div class=\"TRS_Editor\">\
        <p>11月20日共检测150万人次，检测阳性率11月22日为5.2%</p>\
        </div></body></html>";
    assert!(scan_post(body).unwrap().is_none());
}

#[test]
fn page_without_marker_is_no_error() {
    let body = "<html><body><div class=\"TRS_Editor\"><div class=\"TRS_Editor\">\
        <p>近期情况如下。</p></div></div></body></html>";
    assert!(scan_post(body).unwrap().is_none());
    assert!(scan_post("").unwrap().is_none());
}

#[test]
fn page_without_marker_gives_a_record_without_data() {
    let body = "<html><body><div class=\"TRS_Editor\"><div class=\"TRS_Editor\">\
        <p>近期情况如下。</p><p>11月20日共检测150万人次。</p></div></div></body></html>";
    let record = record_for(reference(), body).unwrap();
    assert!(record.data.is_none());
    assert_eq!(record.post.title, "通报");
    assert_eq!(record.post.date, "2023-01-25");
    assert_eq!(record.post.link, "https://example.org/a.html");
}

#[test]
fn page_with_figures_gives_a_record_with_data() {
    let body = "<div class=\"TRS_Editor\"><div class=\"TRS_Editor\">\
        <p>2022年12月1日共检测9.5万人次；检测阳性率2022年12月2日降至1.50%。</p></div></div>";
    let record = record_for(reference(), body).unwrap();
    let data = record.data.unwrap();
    assert_eq!(data.count.mantissa, "9.5");
    assert!(data.count.scaled);
    assert_eq!(data.count_date, "2022年12月1日");
    assert_eq!(data.positive_percent, "1.50%");
    assert_eq!(data.positive_percent_date, "2022年12月2日");
    assert_eq!(record.post.link, "https://example.org/a.html");
}

#[test]
fn page_with_a_whole_rate_has_no_data() {
    let body = "<div class='TRS_Editor'><div class='TRS_Editor'>\
        <p>11月20日检测150万人次，检测阳性率11月22日为5%</p></div></div>";
    assert!(scan_post(body).unwrap().is_none());
    let record = record_for(reference(), body).unwrap();
    assert!(record.data.is_none());
    assert_eq!(record.post.link, "https://example.org/a.html");
}

#[test]
fn paragraph_with_a_whole_rate_is_passed_over() {
    let paragraphs = owned(&[
        "11月20日检测150万人次，检测阳性率11月22日为5%",
        "12月1日共检测9万人次，检测阳性率12月2日为1.5%",
    ]);
    let f = scan_paragraphs(&paragraphs, MARKER).unwrap();
    assert_eq!(f.count_date, "12月1日");
    assert_eq!(f.positive_percent, "1.5%");
}
