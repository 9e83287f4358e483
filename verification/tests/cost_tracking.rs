use statusline::cost::{
    get_model_pricing, line_mentions_usage, modified_within_day, CostTracker, ModelPricing,
    PRICE_UNITS_PER_USD,
};
use statusline::json::{JsonNumber, JsonValue};

fn text(s: &str) -> JsonValue {
    JsonValue::Text(s.to_string())
}

fn num(n: u64) -> JsonValue {
    JsonValue::Number(JsonNumber { exact: Some(n), truncated: Some(n) })
}

fn obj(members: Vec<(&str, JsonValue)>) -> JsonValue {
    JsonValue::Object(members.into_iter().map(|(k, v)| (k.to_string(), v)).collect())
}

fn record(ts: &str, id: &str, model: &str, input: u64, output: u64) -> JsonValue {
    obj(vec![
        ("timestamp", text(ts)),
        (
            "message",
            obj(vec![
                ("id", text(id)),
                ("model", text(model)),
                ("stop_reason", text("end_turn")),
                (
                    "usage",
                    obj(vec![
                        ("input_tokens", num(input)),
                        ("output_tokens", num(output)),
                        ("cache_creation_input_tokens", num(1000)),
                        ("cache_read_input_tokens", num(0)),
                    ]),
                ),
            ]),
        ),
    ])
}

fn prices(p: ModelPricing) -> (u64, u64, u64, u64) {
    (p.input, p.output, p.cache_creation, p.cache_read)
}

#[test]
fn pricing_by_model_family() {
    assert_eq!(prices(get_model_pricing("model-opus-4-6")), (50, 250, 0, 5));
    assert_eq!(prices(get_model_pricing("model-opus-4-5-20251101")), (50, 250, 0, 5));
    assert_eq!(prices(get_model_pricing("model-sonnet-4-5")), (30, 150, 0, 3));
    assert_eq!(prices(get_model_pricing("model-haiku-4-5")), (10, 50, 0, 1));
    assert_eq!(prices(get_model_pricing("model-opus-4-1")), (150, 750, 0, 15));
    assert_eq!(prices(get_model_pricing("")), (30, 150, 0, 3));
    assert_eq!(prices(get_model_pricing("gpt")), (30, 150, 0, 3));
    // One million Opus 4.1 input tokens cost 15 dollars.
    assert_eq!(1_000_000 * get_model_pricing("opus").input, 15 * PRICE_UNITS_PER_USD);
}

#[test]
fn cache_creation_is_free_on_samples() {
    for m in ["opus", "sonnet", "haiku", "opus-4-5", "x"] {
        assert_eq!(get_model_pricing(m).cache_creation, 0);
    }
}

#[test]
fn tracker_sums_todays_messages() {
    let mut t = CostTracker::new();
    t.absorb(&record("2025-06-01T10:00:00Z", "a", "model-sonnet-4", 1000, 100), "2025-06-01");
    // 1000 * 30 + 100 * 150 = 45000 units
    assert_eq!(t.today_cost(), 45000);
    assert_eq!(t.block_cost(), 45000);
    assert_eq!(t.block_start_ts(), Some(1748772000));
    assert_eq!(t.block_last_ts(), Some(1748772000));
}

#[test]
fn tracker_skips_other_days_and_unfinished() {
    let mut t = CostTracker::new();
    t.absorb(&record("2025-05-31T23:59:59Z", "a", "sonnet", 1000, 0), "2025-06-01");
    let mut unfinished = record("2025-06-01T10:00:00Z", "b", "sonnet", 1000, 0);
    if let JsonValue::Object(members) = &mut unfinished {
        if let JsonValue::Object(msg) = &mut members[1].1 {
            msg[2].1 = JsonValue::Null;
        }
    }
    t.absorb(&unfinished, "2025-06-01");
    assert_eq!(t.today_cost(), 0);
    assert_eq!(t.block_start_ts(), None);
}

#[test]
fn tracker_counts_each_message_once() {
    let mut t = CostTracker::new();
    let r = record("2025-06-01T10:00:00Z", "msg_1", "haiku", 100, 0);
    t.absorb(&r, "2025-06-01");
    t.absorb(&r, "2025-06-01");
    assert_eq!(t.today_cost(), 1000);
    // Records without an id are never de-duplicated.
    let anon = record("2025-06-01T10:00:00Z", "", "haiku", 100, 0);
    t.absorb(&anon, "2025-06-01");
    t.absorb(&anon, "2025-06-01");
    assert_eq!(t.today_cost(), 3000);
}

#[test]
fn tracker_starts_new_block_after_gap() {
    let mut t = CostTracker::new();
    t.absorb(&record("2025-06-01T10:00:00Z", "a", "haiku", 100, 0), "2025-06-01");
    t.absorb(&record("2025-06-01T10:20:00Z", "b", "haiku", 100, 0), "2025-06-01");
    assert_eq!(t.block_cost(), 2000);
    assert_eq!(t.block_start_ts(), Some(1748772000));
    // 10:20 to 10:51 is a pause of 31 minutes.
    t.absorb(&record("2025-06-01T10:51:00Z", "c", "haiku", 300, 0), "2025-06-01");
    assert_eq!(t.block_cost(), 3000);
    assert_eq!(t.block_start_ts(), Some(1748775060));
    assert_eq!(t.block_last_ts(), Some(1748775060));
    assert_eq!(t.today_cost(), 5000);
}

#[test]
fn tracker_summary() {
    let mut t = CostTracker::new();
    t.absorb(&record("2025-06-01T10:00:00Z", "a", "haiku", 100, 0), "2025-06-01");
    // Pauses of exactly thirty minutes keep the block going.
    t.absorb(&record("2025-06-01T10:30:00Z", "b", "haiku", 100, 0), "2025-06-01");
    t.absorb(&record("2025-06-01T11:00:00Z", "c", "haiku", 100, 0), "2025-06-01");
    let s = t.summarize(1748772000 + 3600 + 59);
    assert_eq!(s.today_cost, 3000);
    assert_eq!(s.block_cost, 3000);
    // 5 h - 1 h 0 m 59 s = 3 h 59 m 1 s, i.e. 239 whole minutes.
    assert_eq!(s.block_remaining_min, 239);
    assert_eq!(s.burn_elapsed_secs, Some(3600));
    let late = t.summarize(1748772000 + 5 * 3600);
    assert_eq!(late.block_remaining_min, 0);
}

#[test]
fn tracker_summary_short_block_has_no_burn_rate() {
    let mut t = CostTracker::new();
    t.absorb(&record("2025-06-01T10:00:00Z", "a", "haiku", 1, 0), "2025-06-01");
    t.absorb(&record("2025-06-01T10:00:36Z", "b", "haiku", 1, 0), "2025-06-01");
    assert_eq!(t.summarize(1748772036).burn_elapsed_secs, None);
    t.absorb(&record("2025-06-01T10:00:37Z", "c", "haiku", 1, 0), "2025-06-01");
    assert_eq!(t.summarize(1748772037).burn_elapsed_secs, Some(37));
    let empty = CostTracker::new().summarize(5);
    assert_eq!((empty.block_remaining_min, empty.burn_elapsed_secs), (0, None));
}

#[test]
fn tracker_timestamp_fallback_to_message() {
    let mut t = CostTracker::new();
    let r = obj(vec![(
        "message",
        obj(vec![
            ("timestamp", text("2025-06-01T12:00:00Z")),
            ("stop_reason", text("end_turn")),
            ("usage", obj(vec![("output_tokens", num(10))])),
        ]),
    )]);
    t.absorb(&r, "2025-06-01");
    // Unknown model: Sonnet prices, 10 * 150.
    assert_eq!(t.today_cost(), 1500);
    assert_eq!(t.block_last_ts(), Some(1748779200));
}

#[test]
fn tracker_panic_detection() {
    let bad = record("1969-06-01T10:00:00Z", "a", "haiku", 1, 0);
    assert!(CostTracker::absorb_panics(&bad, "1969-06-01"));
    assert!(!CostTracker::absorb_panics(&bad, "2025-06-01"));
    let good = record("2025-06-01T10:00:00Z", "a", "haiku", 1, 0);
    assert!(!CostTracker::absorb_panics(&good, "2025-06-01"));
}

#[test]
fn line_prefilter() {
    assert!(line_mentions_usage(r#"{"message":{"usage":{},"stop_reason":"x"}}"#));
    assert!(!line_mentions_usage(r#"{"message":{"usage":{}}}"#));
    assert!(!line_mentions_usage(r#"{"stop_reason":"x"}"#));
    assert!(!line_mentions_usage(""));
}

#[test]
fn modified_files_within_a_day() {
    assert!(modified_within_day(100_000, 100_000));
    assert!(modified_within_day(100_000, 100_000 - 86400));
    assert!(!modified_within_day(100_000, 100_000 - 86401));
}

#[test]
fn today_cost_never_decreases_on_a_sequence() {
    let mut t = CostTracker::new();
    let mut last = 0u128;
    for (i, ts) in ["2025-06-01T09:00:00Z", "2025-06-01T08:00:00Z", "2025-06-01T23:00:00Z"].iter().enumerate() {
        let id = format!("m{}", i);
        t.absorb(&record(ts, &id, "opus", 10, 10), "2025-06-01");
        assert!(t.today_cost() >= last);
        last = t.today_cost();
    }
    assert_eq!(last, 3 * (10 * 150 + 10 * 750));
}

#[test]
fn tracker_reads_log_lines() {
    let mut t = CostTracker::new();
    let line = r#"{"timestamp":"2025-06-01T10:00:00Z","message":{"id":"m1","model":"haiku","stop_reason":"end_turn","usage":{"input_tokens":100,"output_tokens":0}}}"#;
    assert!(!t.absorb_line(line, "2025-06-01"));
    assert!(!t.absorb_line(line, "2025-06-01"));
    assert_eq!(t.today_cost(), 1000);
    assert_eq!(t.block_start_ts(), Some(1748772000));
    // Lines without both keys, or that are not JSON, change nothing.
    assert!(!t.absorb_line(r#"{"message":{"usage":{"input_tokens":100}}}"#, "2025-06-01"));
    assert!(!t.absorb_line(r#""usage" "stop_reason" {"#, "2025-06-01"));
    assert_eq!(t.today_cost(), 1000);
}

#[test]
fn tracker_line_that_would_panic() {
    let mut t = CostTracker::new();
    let line = r#"{"timestamp":"1969-06-01T10:00:00Z","message":{"stop_reason":"end_turn","usage":{}}}"#;
    assert!(t.absorb_line(line, "1969-06-01"));
    assert_eq!(t.today_cost(), 0);
    assert_eq!(t.block_start_ts(), None);
}
