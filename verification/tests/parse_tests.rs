use tickrush::json::{JsonNumber, JsonValue};
use tickrush::parse::{is_blank_line, is_gzip_extension, is_gzipped, message_from_json};

fn msg_json(text: &str) -> JsonValue {
    fn conv(v: serde_json::Value) -> JsonValue {
        match v {
            serde_json::Value::Null => JsonValue::Null,
            serde_json::Value::Bool(b) => JsonValue::Bool(b),
            serde_json::Value::Number(n) => {
                let f = n.as_f64().unwrap_or(0.0);
                JsonValue::Number(JsonNumber {
                    int: n.as_i64(),
                    bits: f.to_bits(),
                    hundredths: (f * 100.0).round() as i64,
                })
            }
            serde_json::Value::String(s) => JsonValue::Str(s),
            serde_json::Value::Array(a) => JsonValue::Array(a.into_iter().map(conv).collect()),
            serde_json::Value::Object(m) => {
                JsonValue::Object(m.into_iter().map(|(k, v)| (k, conv(v))).collect())
            }
        }
    }
    conv(serde_json::from_str(text).unwrap())
}

#[test]
fn message_with_mc_array() {
    let m = message_from_json(msg_json(r#"{"op":"mcm","pt":1500,"mc":[{"id":"1.2"},{"id":"1.3"}]}"#)).unwrap();
    assert_eq!(m.publish_time, 1500);
    assert_eq!(m.market_changes.len(), 2);
    assert_eq!(m.market_changes[1].get_str("id"), Some("1.3"));
}

#[test]
fn message_is_its_own_change() {
    let m = message_from_json(msg_json(r#"{"pt":7,"id":"1.9","rc":[]}"#)).unwrap();
    assert_eq!(m.publish_time, 7);
    assert_eq!(m.market_changes.len(), 1);
    assert_eq!(m.market_changes[0].get_str("id"), Some("1.9"));
    let d = message_from_json(msg_json(r#"{"pt":8,"marketDefinition":{}}"#)).unwrap();
    assert_eq!(d.market_changes.len(), 1);
}

#[test]
fn message_without_changes_or_time_is_dropped() {
    assert!(message_from_json(msg_json(r#"{"op":"connection","pt":10}"#)).is_none());
    assert!(message_from_json(msg_json(r#"{"mc":[{"id":"1.2"}]}"#)).is_none());
    assert!(message_from_json(msg_json(r#"{"pt":0,"mc":[]}"#)).is_none());
    assert!(message_from_json(msg_json(r#"{"pt":-5,"mc":[]}"#)).is_none());
    assert!(message_from_json(msg_json(r#"[1,2]"#)).is_none());
}

#[test]
fn mc_that_is_not_an_array() {
    // an "mc" that is not an array falls back to the message itself when it
    // carries runner changes
    let m = message_from_json(msg_json(r#"{"pt":3,"mc":5,"rc":[]}"#)).unwrap();
    assert_eq!(m.market_changes.len(), 1);
    assert!(message_from_json(msg_json(r#"{"pt":3,"mc":5}"#)).is_none());
}

#[test]
fn blank_lines() {
    assert!(is_blank_line(""));
    assert!(is_blank_line("  \t\r\n"));
    assert!(is_blank_line("\u{a0}\u{3000}"));
    assert!(!is_blank_line(" {} "));
}

#[test]
fn gzip_paths() {
    assert!(is_gzipped("data/PRO-1.170258213.gz"));
    assert!(is_gzipped("x.gzip"));
    assert!(!is_gzipped("data/PRO-1.170258213"));
    assert!(!is_gzipped("file.gz.txt"));
    assert!(!is_gzipped(".gz"));
    assert!(!is_gzipped("dir.gz/file"));
    assert!(is_gzip_extension(Some("gz")));
    assert!(!is_gzip_extension(Some("GZ")));
    assert!(!is_gzip_extension(None));
}
