use tickrush::json::{JsonNumber, JsonValue};
use tickrush::parse::{message_from_json, ParsedMessage};
use tickrush::PricesIterator;

fn stream_json(text: &str) -> JsonValue {
    fn conv(v: serde_json::Value) -> JsonValue {
        match v {
            serde_json::Value::Null => JsonValue::Null,
            serde_json::Value::Bool(b) => JsonValue::Bool(b),
            serde_json::Value::Number(n) => {
                let f = n.as_f64().unwrap_or(0.0);
                JsonValue::Number(JsonNumber {
                    int: n.as_i64(),
                    bits: f.to_bits(),
                    hundredths: (f * 100.0).round() as i64,
                })
            }
            serde_json::Value::String(s) => JsonValue::Str(s),
            serde_json::Value::Array(a) => JsonValue::Array(a.into_iter().map(conv).collect()),
            serde_json::Value::Object(m) => {
                JsonValue::Object(m.into_iter().map(|(k, v)| (k, conv(v))).collect())
            }
        }
    }
    conv(serde_json::from_str(text).unwrap())
}

fn messages(lines: &[&str]) -> Vec<ParsedMessage> {
    lines.iter().filter_map(|l| message_from_json(stream_json(l))).collect()
}

#[test]
fn replay_yields_a_book_per_message() {
    let msgs = messages(&[
        r#"{"pt":1000,"mc":[{"id":"1.1","rc":[{"id":5,"ltp":2.0}]}]}"#,
        r#"{"pt":2000,"mc":[{"id":"1.1","rc":[{"id":6,"ltp":3.0}]},{"id":"1.1","status":"SUSPENDED"}]}"#,
    ]);
    let mut it = PricesIterator::new(msgs);
    assert_eq!(it.len(), 2);
    let b1 = it.next_book().unwrap();
    assert_eq!(b1.publish_time_millis, 1000);
    assert_eq!(b1.number_of_runners, 1);
    let b2 = it.next_book().unwrap();
    assert_eq!(b2.publish_time_millis, 2000);
    assert_eq!(b2.number_of_runners, 2);
    assert_eq!(b2.status, "SUSPENDED");
    assert!(it.next_book().is_none());
    assert!(it.next_book().is_none());
    assert_eq!(it.len(), 2);
}

#[test]
fn no_book_until_a_market_id() {
    let msgs = messages(&[
        r#"{"pt":1000,"mc":[{"rc":[{"id":5,"ltp":2.0}]}]}"#,
        r#"{"pt":1500,"mc":[{"id":"","rc":[{"id":5,"ltp":2.0}]}]}"#,
        r#"{"pt":2000,"mc":[{"id":"1.7","rc":[{"id":6,"ltp":3.0}]}]}"#,
    ]);
    let mut it = PricesIterator::new(msgs);
    assert!(it.next_book().is_none());
    assert!(it.next_book().is_none());
    let b = it.next_book().unwrap();
    assert_eq!(b.market_id, "1.7");
    // the changes passed over before the market started are not replayed
    assert_eq!(b.number_of_runners, 1);
    assert_eq!(b.runners[0].selection_id, 6);
}

#[test]
fn later_market_ids_update_the_first_market() {
    let msgs = messages(&[
        r#"{"pt":1000,"mc":[{"id":"1.1","rc":[{"id":5,"ltp":2.0}]}]}"#,
        r#"{"pt":2000,"mc":[{"id":"1.2","rc":[{"id":6,"ltp":3.0}]}]}"#,
    ]);
    let mut it = PricesIterator::new(msgs);
    it.next_book();
    let b = it.next_book().unwrap();
    assert_eq!(b.market_id, "1.1");
    assert_eq!(b.number_of_runners, 2);
}
