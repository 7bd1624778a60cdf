use tickrush::dict::DictValue;
use tickrush::json::{JsonNumber, JsonValue};
use tickrush::market::{MarketBook, MarketCache};
use tickrush::runner::{RunnerCache, SpValue};

fn mk_json(text: &str) -> JsonValue {
    fn conv(v: serde_json::Value) -> JsonValue {
        match v {
            serde_json::Value::Null => JsonValue::Null,
            serde_json::Value::Bool(b) => JsonValue::Bool(b),
            serde_json::Value::Number(n) => {
                let f = n.as_f64().unwrap_or(0.0);
                JsonValue::Number(JsonNumber {
                    int: n.as_i64(),
                    bits: f.to_bits(),
                    hundredths: (f * 100.0).round() as i64,
                })
            }
            serde_json::Value::String(s) => JsonValue::Str(s),
            serde_json::Value::Array(a) => JsonValue::Array(a.into_iter().map(conv).collect()),
            serde_json::Value::Object(m) => {
                JsonValue::Object(m.into_iter().map(|(k, v)| (k, conv(v))).collect())
            }
        }
    }
    conv(serde_json::from_str(text).unwrap())
}

const DEFINITION_CHANGE: &str = r#"{"id":"1.170258213","img":true,"marketDefinition":{
  "bspMarket":true,"turnInPlayEnabled":true,"persistenceEnabled":true,"marketBaseRate":5,
  "eventId":"30000","eventTypeId":"7","numberOfWinners":1,"bettingType":"ODDS","marketType":"WIN",
  "marketTime":"2020-09-13T13:00:00.000Z","suspendTime":"2020-09-13T13:00:00.000Z",
  "bspReconciled":false,"complete":true,"inPlay":false,"crossMatching":false,"runnersVoidable":false,
  "numberOfActiveRunners":2,"betDelay":0,"status":"OPEN",
  "runners":[{"status":"ACTIVE","sortPriority":2,"id":102,"hc":0.25},
             {"status":"ACTIVE","sortPriority":1,"id":101,"adjustmentFactor":12.5,"name":"Horse A"}],
  "regulators":["MR_INT", 5],"venue":"Ascot","countryCode":"GB","discountAllowed":true,
  "timezone":"Europe/London","openDate":"2020-09-13T12:00:00.000Z","version":1,
  "name":"1m Hcap","eventName":"Ascot 13th Sep"},
  "rc":[{"atb":[[2.0,10],[2.02,5]],"atl":[[2.1,3]],"trd":[[2.0,1.5]],"ltp":2.0,"tv":1.5,"id":101}]}"#;

fn f(bits: u64) -> f64 {
    f64::from_bits(bits)
}

fn book_after(changes: &[&str]) -> (MarketCache, MarketBook) {
    let mut c = MarketCache::new("1.170258213".to_string());
    let mut t = 1000;
    for ch in changes {
        c.update(&mk_json(ch), t);
        t += 1000;
    }
    let b = c.to_market_book();
    (c, b)
}

#[test]
fn new_market_defaults() {
    let mut c = MarketCache::new("1.5".to_string());
    let b = c.to_market_book();
    assert_eq!(b.market_id, "1.5");
    assert_eq!(b.status, "OPEN");
    assert!(b.complete && b.cross_matching && !b.inplay && !b.bsp_reconciled);
    assert_eq!(b.number_of_winners, 1);
    assert_eq!(b.number_of_runners, 0);
    assert!(b.runners.is_empty());
    assert!(b.market_definition.is_none());
    assert_eq!(b.last_match_time, None);
    assert_eq!(b.streaming_unique_id, None);
}

#[test]
fn definition_and_runners() {
    let (_, b) = book_after(&[DEFINITION_CHANGE]);
    assert_eq!(b.publish_time_millis, 1000);
    assert_eq!(b.version, 1);
    assert_eq!(b.number_of_runners, 2);
    assert_eq!(b.number_of_active_runners, 2);
    // runners ascending by selection id
    assert_eq!(b.runners[0].selection_id, 101);
    assert_eq!(b.runners[1].selection_id, 102);
    assert_eq!(f(b.runners[1].handicap), 0.25);
    let r = &b.runners[0];
    assert_eq!(r.status, "ACTIVE");
    assert_eq!(r.last_price_traded.map(f), Some(2.0));
    assert_eq!(f(r.total_matched), 1.5);
    assert_eq!(r.adjustment_factor.map(f), Some(12.5));
    let back: Vec<f64> = r.ex.available_to_back.iter().map(|p| f(p.price)).collect();
    assert_eq!(back, vec![2.02, 2.0]);
    assert_eq!(r.ex.available_to_lay.len(), 1);
    assert_eq!(f(r.ex.traded_volume[0].size), 1.5);
    let d = b.market_definition.as_ref().unwrap();
    assert_eq!(d.venue.as_deref(), Some("Ascot"));
    assert_eq!(d.regulators, vec!["MR_INT".to_string()]);
    assert_eq!(d.runners.len(), 2);
    assert_eq!(d.runners[0].selection_id, 102);
    assert_eq!(d.runners[1].name.as_deref(), Some("Horse A"));
    assert_eq!(d.number_of_active_runners, 2);
    assert_eq!(f(d.market_base_rate), 5.0);
    assert_eq!(d.market_time.as_deref(), Some("2020-09-13T13:00:00.000Z"));
    assert!(d.bsp_market);
}

#[test]
fn handicaps_make_distinct_runners() {
    let (_, b) = book_after(&[
        r#"{"id":"1.1","rc":[{"id":7,"hc":0.5,"ltp":3},{"id":7,"hc":-0.5,"ltp":4},{"id":7,"ltp":5},{"id":7,"hc":0.5,"tv":9}]}"#,
    ]);
    assert_eq!(b.number_of_runners, 3);
    let hcs: Vec<f64> = b.runners.iter().map(|r| f(r.handicap)).collect();
    assert_eq!(hcs, vec![-0.5, 0.0, 0.5]);
    assert_eq!(b.runners[2].last_price_traded.map(f), Some(3.0));
    assert_eq!(f(b.runners[2].total_matched), 9.0);
}

#[test]
fn runner_changes_without_id_are_ignored() {
    let (_, b) = book_after(&[r#"{"id":"1.1","rc":[{"ltp":3},{"id":"8","ltp":3}]}"#]);
    assert_eq!(b.number_of_runners, 0);
}

#[test]
fn definition_kept_until_next_definition() {
    let (mut c, b1) = book_after(&[DEFINITION_CHANGE]);
    assert_eq!(b1.market_definition.as_ref().unwrap().status, "OPEN");
    c.update(&mk_json(r#"{"id":"1.170258213","status":"SUSPENDED","version":2}"#), 5000);
    let b2 = c.to_market_book();
    assert_eq!(b2.status, "SUSPENDED");
    assert_eq!(b2.version, 2);
    let d2 = b2.market_definition.as_ref().unwrap();
    assert_eq!(d2.status, "OPEN");
    assert_eq!(d2.version, 1);
    c.update(&mk_json(r#"{"id":"1.170258213","marketDefinition":{"status":"CLOSED","version":3}}"#), 6000);
    let b3 = c.to_market_book();
    let d3 = b3.market_definition.as_ref().unwrap();
    assert_eq!(d3.status, "CLOSED");
    assert_eq!(d3.version, 3);
    // fields the new definition leaves out are kept
    assert_eq!(d3.venue.as_deref(), Some("Ascot"));
    assert_eq!(d3.runners.len(), 2);
}

#[test]
fn image_clears_runners() {
    let (mut c, _) = book_after(&[DEFINITION_CHANGE]);
    c.update(&mk_json(r#"{"id":"1.170258213","img":true}"#), 7000);
    let b = c.to_market_book();
    assert_eq!(b.number_of_runners, 0);
    assert_eq!(b.number_of_active_runners, 0);
    assert!(b.runners.is_empty());
}

#[test]
fn removed_runners_are_not_active() {
    let (mut c, _) = book_after(&[DEFINITION_CHANGE]);
    c.update(
        &mk_json(r#"{"id":"1.170258213","marketDefinition":{"runners":[{"id":102,"hc":0.25,"status":"REMOVED","removalDate":"2020-09-13T12:30:00.000Z","bsp":3.75},{"id":101,"status":"WINNER"}]}}"#),
        8000,
    );
    let b = c.to_market_book();
    assert_eq!(b.number_of_runners, 2);
    assert_eq!(b.number_of_active_runners, 0);
    assert_eq!(b.runners[1].status, "REMOVED");
    assert_eq!(b.runners[1].removal_date.as_deref(), Some("2020-09-13T12:30:00.000Z"));
    match &b.runners[1].sp.actual_sp {
        SpValue::Float(x) => assert_eq!(f(*x), 3.75),
        _ => panic!("expected a number"),
    }
    // a definition entry without bsp clears the actual starting price
    assert!(matches!(b.runners[0].sp.actual_sp, SpValue::Null));
    assert_eq!(b.market_definition.as_ref().unwrap().number_of_active_runners, 0);
}

#[test]
fn scalar_fields_of_market_changes() {
    let (_, b) = book_after(&[
        r#"{"id":"1.1","betDelay":5,"bspReconciled":true,"complete":false,"crossMatching":false,"inPlay":true,"runnersVoidable":true,"tv":123.5,"version":9,"lastMatchTime":1600000000123}"#,
    ]);
    assert_eq!(b.bet_delay, 5);
    assert!(b.bsp_reconciled && !b.complete && !b.cross_matching && b.inplay && b.runners_voidable);
    assert_eq!(f(b.total_matched), 123.5);
    assert_eq!(b.version, 9);
    assert_eq!(b.last_match_time, Some(1600000000123));
}

#[test]
fn bet_delay_is_cut_to_32_bits() {
    let (_, b) = book_after(&[r#"{"id":"1.1","betDelay":4294967301}"#]);
    assert_eq!(b.bet_delay, 5);
}

#[test]
fn starting_prices() {
    let mut r = RunnerCache::new(9, 0);
    assert!(r.update(&mk_json(r#"{"id":9,"spn":4.5,"spf":"Infinity","spb":[[1000,2.5]],"spl":[[1.01,7],[1.5,2]]}"#)));
    let b = r.to_runner();
    assert!(matches!(b.sp.near_price, SpValue::Float(x) if f(x) == 4.5));
    assert!(matches!(&b.sp.far_price, SpValue::Str(s) if s == "Infinity"));
    // spb feeds the lay liability taken, spl the back stake taken
    assert_eq!(b.sp.lay_liability_taken.len(), 1);
    assert_eq!(f(b.sp.lay_liability_taken[0].price), 1000.0);
    let stake: Vec<f64> = b.sp.back_stake_taken.iter().map(|p| f(p.price)).collect();
    assert_eq!(stake, vec![1.01, 1.5]);
    // a null starting price is a change to nothing
    assert!(r.update(&mk_json(r#"{"id":9,"spn":null}"#)));
    assert!(matches!(r.to_runner().sp.near_price, SpValue::Null));
}

#[test]
fn runner_generation_counts_changes() {
    let mut r = RunnerCache::new(9, 0);
    assert_eq!(r.generation(), 0);
    assert!(r.update(&mk_json(r#"{"id":9,"ltp":2.5}"#)));
    assert_eq!(r.generation(), 1);
    assert!(!r.update(&mk_json(r#"{"id":9,"ltp":2.5,"status":"ACTIVE","atb":[]}"#)));
    assert_eq!(r.generation(), 1);
    // an entry that leaves status, starting price, factor and removal date as they were
    assert!(!r.update_from_definition(&mk_json(r#"{"id":9}"#)));
    assert_eq!(r.generation(), 1);
    assert!(r.update_from_definition(&mk_json(r#"{"id":9,"status":"REMOVED"}"#)));
    assert_eq!(r.generation(), 2);
    assert_eq!(r.status(), "REMOVED");
}

#[test]
fn repeated_starting_price_is_no_change() {
    let mut r = RunnerCache::new(1, 0);
    assert!(r.update(&mk_json(r#"{"id":1,"spn":4.2}"#)));
    assert!(!r.update(&mk_json(r#"{"id":1,"spn":4.2}"#)));
    assert_eq!(r.generation(), 1);
    assert!(matches!(r.to_runner().sp.near_price, SpValue::Float(x) if f(x) == 4.2));
    assert!(r.update(&mk_json(r#"{"id":1,"spf":"Infinity"}"#)));
    assert!(!r.update(&mk_json(r#"{"id":1,"spf":"Infinity","spn":4.2}"#)));
    assert!(r.update(&mk_json(r#"{"id":1,"spn":"NaN"}"#)));
    assert_eq!(r.generation(), 3);
}

#[test]
fn definition_entry_counts_only_real_changes() {
    let mut r = RunnerCache::new(1, 0);
    assert!(!r.update_from_definition(&mk_json(r#"{"id":1,"status":"ACTIVE"}"#)));
    assert_eq!(r.generation(), 0);
    assert!(r.update_from_definition(&mk_json(r#"{"id":1,"bsp":3.5}"#)));
    assert_eq!(r.generation(), 1);
    assert!(!r.update_from_definition(&mk_json(r#"{"id":1,"bsp":3.5,"status":"ACTIVE"}"#)));
    assert_eq!(r.generation(), 1);
    // an entry without bsp clears the actual starting price
    assert!(r.update_from_definition(&mk_json(r#"{"id":1}"#)));
    assert_eq!(r.generation(), 2);
    assert!(matches!(r.to_runner().sp.actual_sp, SpValue::Null));
    assert!(r.update_from_definition(&mk_json(r#"{"id":1,"adjustmentFactor":7.5,"removalDate":"d"}"#)));
    assert!(!r.update_from_definition(&mk_json(r#"{"id":1,"adjustmentFactor":7.5,"removalDate":"d"}"#)));
    assert_eq!(r.generation(), 3);
}

#[test]
fn runner_book_reused_while_unchanged() {
    let mut r = RunnerCache::new(9, 0);
    r.update(&mk_json(r#"{"id":9,"atb":[[2.5,4]],"atl":[[2.6,1]]}"#));
    let b1 = r.to_runner();
    assert!(!b1.reused);
    assert!(!b1.ex.available_to_back_reused);
    assert!(!b1.ex.available_to_lay_reused);
    assert!(!b1.ex.traded_volume_reused);
    let b2 = r.to_runner();
    assert!(b2.reused);
    assert_eq!(b1.ex.available_to_back, b2.ex.available_to_back);
    // a change that reports nothing keeps the book
    assert!(!r.update(&mk_json(r#"{"id":9,"atb":[[2.5,4]]}"#)));
    assert!(r.to_runner().reused);
    // a change outside the ladders renews the book but keeps every listing
    assert!(r.update(&mk_json(r#"{"id":9,"ltp":2.5}"#)));
    let b3 = r.to_runner();
    assert!(!b3.reused);
    assert!(b3.ex.available_to_back_reused);
    assert!(b3.ex.available_to_lay_reused);
    assert!(b3.ex.traded_volume_reused);
    // a back change renews the back listing only
    assert!(r.update(&mk_json(r#"{"id":9,"atb":[[2.52,1]]}"#)));
    let b4 = r.to_runner();
    assert!(!b4.reused);
    assert!(!b4.ex.available_to_back_reused);
    assert!(b4.ex.available_to_lay_reused);
    assert_eq!(b4.ex.available_to_back.len(), 2);
}

#[test]
fn market_book_reuses_definition_and_runners() {
    let (mut c, b1) = book_after(&[DEFINITION_CHANGE]);
    assert!(!b1.definition_reused);
    assert!(b1.runners.iter().all(|r| !r.reused));
    c.update(&mk_json(r#"{"id":"1.170258213","rc":[{"id":101,"ltp":2.02}]}"#), 5000);
    let b2 = c.to_market_book();
    assert!(b2.definition_reused);
    assert_eq!(b2.market_definition.as_ref().unwrap().version, 1);
    // runners ascending by id: 101 changed, 102 did not
    assert!(!b2.runners[0].reused);
    assert!(b2.runners[1].reused);
    c.update(&mk_json(r#"{"id":"1.170258213","marketDefinition":{"version":2}}"#), 6000);
    let b3 = c.to_market_book();
    assert!(!b3.definition_reused);
    assert_eq!(b3.market_definition.as_ref().unwrap().version, 2);
}

#[test]
fn definition_shown_once_received() {
    let mut c = MarketCache::new("1.2".to_string());
    c.update(&mk_json(r#"{"id":"1.2","rc":[{"id":1,"ltp":3}]}"#), 1);
    assert!(c.to_market_book().market_definition.is_none());
    c.update(&mk_json(r#"{"id":"1.2","status":"SUSPENDED"}"#), 2);
    let b = c.to_market_book();
    assert!(b.market_definition.is_none());
    assert!(b.definition_reused);
    c.update(&mk_json(r#"{"id":"1.2","marketDefinition":{"status":"OPEN"}}"#), 3);
    c.update(&mk_json(r#"{"id":"1.2","tv":5}"#), 4);
    assert!(c.to_market_book().market_definition.is_some());
    c.update(&mk_json(r#"{"id":"1.2","img":true}"#), 5);
    assert!(c.to_market_book().market_definition.is_some());
}

fn dict_get<'a>(d: &'a DictValue, key: &str) -> Option<&'a DictValue> {
    match d {
        DictValue::Dict(e) => e.iter().find(|(k, _)| k == key).map(|(_, v)| v),
        _ => None,
    }
}

fn dict_keys(d: &DictValue) -> Vec<String> {
    match d {
        DictValue::Dict(e) => e.iter().map(|(k, _)| k.clone()).collect(),
        _ => vec![],
    }
}

#[test]
fn book_as_dict() {
    let (_, b) = book_after(&[DEFINITION_CHANGE]);
    let d = b.to_dict();
    assert_eq!(
        dict_keys(&d),
        vec![
            "marketId", "status", "betDelay", "bspReconciled", "complete", "crossMatching",
            "inplay", "numberOfActiveRunners", "numberOfRunners", "numberOfWinners",
            "runnersVoidable", "totalMatched", "version", "lastMatchTime", "publishTime",
            "runners", "marketDefinition"
        ]
    );
    assert!(matches!(dict_get(&d, "marketId"), Some(DictValue::Str(s)) if s == "1.170258213"));
    assert!(matches!(dict_get(&d, "lastMatchTime"), Some(DictValue::Null)));
    assert!(matches!(dict_get(&d, "publishTime"), Some(DictValue::Int(1000))));
    let runners = match dict_get(&d, "runners") {
        Some(DictValue::List(v)) => v,
        _ => panic!("runners"),
    };
    assert_eq!(runners.len(), 2);
    let ex = dict_get(&runners[0], "ex").unwrap();
    let atb = match dict_get(ex, "availableToBack") {
        Some(DictValue::List(v)) => v,
        _ => panic!("atb"),
    };
    assert!(matches!(dict_get(&atb[0], "price"), Some(DictValue::Float(x)) if f(*x) == 2.02));
    let md = dict_get(&d, "marketDefinition").unwrap();
    let md_runners = match dict_get(md, "runners") {
        Some(DictValue::List(v)) => v,
        _ => panic!("definition runners"),
    };
    assert_eq!(dict_keys(&md_runners[0]), vec!["id", "sortPriority", "status", "hc"]);
    assert_eq!(dict_keys(&md_runners[1]), vec!["id", "sortPriority", "status", "adjustmentFactor", "name"]);
    assert!(matches!(dict_get(md, "marketTime"), Some(DictValue::Str(s)) if s == "2020-09-13T13:00:00.000Z"));
    assert!(matches!(dict_get(md, "settledTime"), None));
}

#[test]
fn book_without_definition_has_no_definition_entry() {
    let (_, b) = book_after(&[r#"{"id":"1.1"}"#]);
    let d = b.to_dict();
    assert!(dict_get(&d, "marketDefinition").is_none());
    assert_eq!(dict_keys(&d).len(), 16);
}

#[test]
fn unreported_update_keeps_book() {
    let mut r = RunnerCache::new(9, 0);
    r.update(&mk_json(r#"{"id":9,"ltp":2.5,"tv":10,"atb":[[2.5,4]],"removalDate":"x"}"#));
    let before = r.to_runner();
    assert!(!r.update(&mk_json(r#"{"id":9,"ltp":2.5,"tv":10.0,"atb":[[2.5,4],[3,0]],"removalDate":"x"}"#)));
    let after = r.to_runner();
    assert_eq!(before.last_price_traded, after.last_price_traded);
    assert_eq!(before.total_matched, after.total_matched);
    assert_eq!(before.ex.available_to_back, after.ex.available_to_back);
    assert_eq!(before.removal_date, after.removal_date);
    assert_eq!(before.status, after.status);
}

#[test]
fn second_book_in_a_row_reuses_everything() {
    let (mut c, b1) = book_after(&[DEFINITION_CHANGE]);
    let b2 = c.to_market_book();
    assert!(b2.definition_reused);
    assert_eq!(b2.market_definition.as_ref().map(|d| d.version), b1.market_definition.as_ref().map(|d| d.version));
    assert_eq!(b2.runners.len(), b1.runners.len());
    for (x, y) in b1.runners.iter().zip(b2.runners.iter()) {
        assert!(y.reused);
        assert_eq!(x.selection_id, y.selection_id);
        assert_eq!(x.status, y.status);
        assert_eq!(x.ex.available_to_back, y.ex.available_to_back);
        assert_eq!(x.ex.available_to_lay, y.ex.available_to_lay);
        assert_eq!(x.ex.traded_volume, y.ex.traded_volume);
    }
    let b3 = c.to_market_book();
    assert!(b3.definition_reused && b3.runners.iter().all(|r| r.reused));
}
