use tickrush::json::{JsonNumber, JsonValue};
use tickrush::ladder::{PriceLadder, PriceSize, TradedLadder};

fn ladder_json(text: &str) -> JsonValue {
    fn conv(v: serde_json::Value) -> JsonValue {
        match v {
            serde_json::Value::Null => JsonValue::Null,
            serde_json::Value::Bool(b) => JsonValue::Bool(b),
            serde_json::Value::Number(n) => {
                let f = n.as_f64().unwrap_or(0.0);
                JsonValue::Number(JsonNumber {
                    int: n.as_i64(),
                    bits: f.to_bits(),
                    hundredths: (f * 100.0).round() as i64,
                })
            }
            serde_json::Value::String(s) => JsonValue::Str(s),
            serde_json::Value::Array(a) => JsonValue::Array(a.into_iter().map(conv).collect()),
            serde_json::Value::Object(m) => {
                JsonValue::Object(m.into_iter().map(|(k, v)| (k, conv(v))).collect())
            }
        }
    }
    conv(serde_json::from_str(text).unwrap())
}

fn batch(text: &str) -> Vec<JsonValue> {
    match ladder_json(text) {
        JsonValue::Array(v) => v,
        _ => panic!("not an array"),
    }
}

fn pairs(v: &[PriceSize]) -> Vec<(f64, f64)> {
    v.iter().map(|p| (f64::from_bits(p.price), f64::from_bits(p.size))).collect()
}

#[test]
fn back_ladder_lists_descending() {
    let mut l = PriceLadder::new(true);
    assert!(l.update(&batch("[[2.0, 10], [3.5, 4.25], [1.01, 100]]")));
    assert_eq!(pairs(&l.to_price_sizes()), vec![(3.5, 4.25), (2.0, 10.0), (1.01, 100.0)]);
}

#[test]
fn lay_ladder_lists_ascending() {
    let mut l = PriceLadder::new(false);
    assert!(l.update(&batch("[[2.0, 10], [3.5, 4.25], [1.01, 100]]")));
    assert_eq!(pairs(&l.to_price_sizes()), vec![(1.01, 100.0), (2.0, 10.0), (3.5, 4.25)]);
}

#[test]
fn zero_size_removes_level() {
    let mut l = PriceLadder::new(false);
    l.update(&batch("[[2.0, 10], [3.0, 5]]"));
    assert!(l.update(&batch("[[2.0, 0]]")));
    assert_eq!(pairs(&l.to_price_sizes()), vec![(3.0, 5.0)]);
    // removing an absent price is no change
    assert!(!l.update(&batch("[[4.0, 0]]")));
    assert!(!l.update(&batch("[[4.0, -0.0]]")));
}

#[test]
fn same_size_is_no_change() {
    let mut l = PriceLadder::new(false);
    assert!(l.update(&batch("[[2.0, 10]]")));
    assert_eq!(l.generation(), 1);
    assert!(!l.update(&batch("[[2.0, 10.0]]")));
    assert_eq!(l.generation(), 1);
    assert!(l.update(&batch("[[2.0, 11]]")));
    assert_eq!(l.generation(), 2);
}

#[test]
fn malformed_entries_are_skipped_or_zero() {
    let mut l = PriceLadder::new(false);
    // short arrays and non-arrays carry nothing
    assert!(!l.update(&batch("[[2.0], 5, \"x\", null]")));
    assert!(l.to_price_sizes().is_empty());
    // a non-number price reads as zero
    assert!(l.update(&batch("[[\"a\", 3]]")));
    assert_eq!(pairs(&l.to_price_sizes()), vec![(0.0, 3.0)]);
}

#[test]
fn batch_applied_twice_keeps_contents() {
    let mut l = PriceLadder::new(true);
    let b = batch("[[2.0, 10], [2.0, 12], [3.0, 1], [4.0, 7], [3.0, 0]]");
    l.update(&b);
    let once = pairs(&l.to_price_sizes());
    l.update(&b);
    assert_eq!(pairs(&l.to_price_sizes()), once);
    assert_eq!(once, vec![(4.0, 7.0), (2.0, 12.0)]);
}

#[test]
fn negative_and_zero_prices_order() {
    let mut l = TradedLadder::new();
    l.update(&batch("[[1.5, 1], [-2.0, 2], [0.0, 3], [-0.5, 4]]"));
    assert_eq!(pairs(&l.to_price_sizes()), vec![(-2.0, 2.0), (-0.5, 4.0), (0.0, 3.0), (1.5, 1.0)]);
    assert_eq!(l.generation(), 1);
}

#[test]
fn price_size_get_item() {
    let p = PriceSize { price: 2.5f64.to_bits(), size: 7.0f64.to_bits() };
    assert_eq!(p.get_item("price"), Some(2.5f64.to_bits()));
    assert_eq!(p.get_item("size"), Some(7.0f64.to_bits()));
    assert_eq!(p.get_item("other"), None);
}

#[test]
fn ladder_prices_are_never_nan() {
    let mut l = PriceLadder::new(true);
    l.update(&batch(r#"[[2.0, 10], ["x", 3], [1e308, 1], [-0.0, 2], [3.0]]"#));
    l.update(&batch("[[2.0, 0], [5.5, 1]]"));
    let listed = l.to_price_sizes();
    assert_eq!(listed.len(), 4);
    assert!(listed.iter().all(|p| !f64::from_bits(p.price).is_nan()));
    assert!(listed.iter().all(|p| f64::from_bits(p.size) != 0.0));
}
