use bulletin_scan::index::PostReference;
use bulletin_scan::post::make_record;
use serde_json::Value;

fn text(s: &str) -> Value {
    Value::String(s.to_string())
}

fn document(paragraphs: &[&str]) -> Value {
    let post = PostReference {
        title: "通报".to_string(),
        date: "2023-01-25".to_string(),
        link: "https://example.org/a.html".to_string(),
    };
    let owned: Vec<String> = paragraphs.iter().map(|s| s.to_string()).collect();
    let record = make_record(post, &owned);
    let mut p = serde_json::Map::new();
    p.insert("title".to_string(), text(&record.post.title));
    p.insert("date".to_string(), text(&record.post.date));
    p.insert("link".to_string(), text(&record.post.link));
    let data = match record.data {
        None => Value::Null,
        Some(f) => {
            let m: f32 = f.count.mantissa.parse().unwrap();
            let count = if f.count.scaled { m * 10000f32 } else { m };
            let mut d = serde_json::Map::new();
            d.insert("count".to_string(), Value::from(count));
            d.insert("countDate".to_string(), text(&f.count_date));
            d.insert("positivePercent".to_string(), text(&f.positive_percent));
            d.insert("positivePercentDate".to_string(), text(&f.positive_percent_date));
            Value::Object(d)
        }
    };
    let mut r = serde_json::Map::new();
    r.insert("data".to_string(), data);
    r.insert("post".to_string(), Value::Object(p));
    Value::Array(vec![Value::Object(r)])
}

#[test]
fn record_with_data_survives_the_document() {
    let before = document(&["11月20日共检测150万人次，检测阳性率11月22日为5.2%"]);
    let written = serde_json::to_string_pretty(&before).unwrap();
    let after: Value = serde_json::from_str(&written).unwrap();
    assert_eq!(before, after);
    assert_eq!(after[0]["data"]["count"].as_f64(), Some(1500000.0));
    assert_eq!(after[0]["data"]["positivePercent"].as_str(), Some("5.2%"));
    assert_eq!(after[0]["post"]["date"].as_str(), Some("2023-01-25"));
}

#[test]
fn record_without_data_survives_the_document() {
    let before = document(&["近期情况如下。"]);
    let written = serde_json::to_string_pretty(&before).unwrap();
    let after: Value = serde_json::from_str(&written).unwrap();
    assert_eq!(before, after);
    assert!(after[0]["data"].is_null());
    assert_eq!(after[0]["post"]["title"].as_str(), Some("通报"));
}
