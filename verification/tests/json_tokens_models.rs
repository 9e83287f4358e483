use statusline::json::{JsonNumber, JsonValue};
use statusline::models::{deser_opt_u64, ContextWindow, Input, Workspace};
use statusline::tokens::{compute_token_metrics, TranscriptTokens};

fn text(s: &str) -> JsonValue {
    JsonValue::Text(s.to_string())
}

fn num(n: u64) -> JsonValue {
    JsonValue::Number(JsonNumber { exact: Some(n), truncated: Some(n) })
}

fn obj(members: Vec<(&str, JsonValue)>) -> JsonValue {
    JsonValue::Object(members.into_iter().map(|(k, v)| (k.to_string(), v)).collect())
}

fn usage_record(input: u64, output: u64, read: u64, created: u64) -> JsonValue {
    obj(vec![(
        "message",
        obj(vec![(
            "usage",
            obj(vec![
                ("input_tokens", num(input)),
                ("output_tokens", num(output)),
                ("cache_read_input_tokens", num(read)),
                ("cache_creation_input_tokens", num(created)),
            ]),
        )]),
    )])
}

#[test]
fn json_lookup_and_readings() {
    let v = obj(vec![("a", num(3)), ("b", text("x")), ("a", num(4))]);
    assert!(matches!(v.get("a"), Some(JsonValue::Number(n)) if n.exact == Some(3)));
    assert_eq!(v.get("b").and_then(|x| x.as_text()), Some("x"));
    assert!(v.get("c").is_none());
    assert!(text("x").get("a").is_none());
    assert_eq!(num(9).as_u64(), Some(9));
    assert_eq!(text("9").as_u64(), None);
    assert!(text("9").is_text());
    assert!(!JsonValue::Null.is_text());
}

#[test]
fn resolved_cwd_prefers_cwd() {
    let input = Input {
        cwd: Some("/a".to_string()),
        workspace: Some(Workspace { current_dir: Some("/b".to_string()) }),
        context_window: None,
        transcript_path: None,
    };
    assert_eq!(input.resolved_cwd(), Some("/a"));
}

#[test]
fn resolved_cwd_falls_back_to_workspace() {
    let input = Input {
        cwd: None,
        workspace: Some(Workspace { current_dir: Some("/b".to_string()) }),
        context_window: None,
        transcript_path: None,
    };
    assert_eq!(input.resolved_cwd(), Some("/b"));
    let empty = Input::default();
    assert_eq!(empty.resolved_cwd(), None);
    let no_dir = Input { workspace: Some(Workspace::default()), ..Input::default() };
    assert_eq!(no_dir.resolved_cwd(), None);
}

#[test]
fn context_window_counts_from_json() {
    assert_eq!(deser_opt_u64(None), None);
    assert_eq!(deser_opt_u64(Some(&JsonValue::Null)), None);
    assert_eq!(deser_opt_u64(Some(&num(12))), Some(12));
    let float = JsonValue::Number(JsonNumber { exact: None, truncated: Some(12) });
    assert_eq!(deser_opt_u64(Some(&float)), Some(12));
    let none = JsonValue::Number(JsonNumber { exact: None, truncated: None });
    assert_eq!(deser_opt_u64(Some(&none)), None);
    assert_eq!(deser_opt_u64(Some(&text("345"))), Some(345));
    assert_eq!(deser_opt_u64(Some(&text("x"))), None);
    assert_eq!(deser_opt_u64(Some(&JsonValue::Bool(true))), None);
    assert_eq!(deser_opt_u64(Some(&JsonValue::Array)), None);
}

#[test]
fn transcript_sums_usage() {
    let mut t = TranscriptTokens::new();
    let r1 = usage_record(10, 20, 30, 40);
    let r2 = usage_record(1, 2, 3, 4);
    assert!(!t.absorb_overflows(&r1));
    t.absorb(&r1);
    t.absorb(&r2);
    assert_eq!(t.input_tokens, 11);
    assert_eq!(t.output_tokens, 22);
    assert_eq!(t.cached_tokens, 77);
}

#[test]
fn transcript_skips_records_without_usage() {
    let mut t = TranscriptTokens::new();
    t.absorb(&obj(vec![("message", obj(vec![("id", text("m1"))]))]));
    t.absorb(&obj(vec![("type", text("user"))]));
    t.absorb(&text("plain"));
    assert_eq!((t.input_tokens, t.output_tokens, t.cached_tokens), (0, 0, 0));
    // A usage that is not an object counts zeros.
    t.absorb(&obj(vec![("message", obj(vec![("usage", JsonValue::Null)]))]));
    assert_eq!((t.input_tokens, t.output_tokens, t.cached_tokens), (0, 0, 0));
    // Counts that are not unsigned integers count as zero.
    let r = obj(vec![("message", obj(vec![("usage", obj(vec![("input_tokens", text("5"))]))]))]);
    t.absorb(&r);
    assert_eq!(t.input_tokens, 0);
}

#[test]
fn transcript_overflow_is_detected() {
    let t = TranscriptTokens { input_tokens: u64::MAX, output_tokens: 0, cached_tokens: 0 };
    assert!(t.absorb_overflows(&usage_record(1, 0, 0, 0)));
    assert!(!t.absorb_overflows(&usage_record(0, 5, 5, 5)));
    let c = TranscriptTokens { input_tokens: 0, output_tokens: 0, cached_tokens: u64::MAX - 3 };
    assert!(c.absorb_overflows(&usage_record(0, 0, 2, 2)));
    assert!(!c.absorb_overflows(&usage_record(0, 0, 2, 1)));
}

#[test]
fn metrics_prefer_context_window() {
    let ctx = ContextWindow { total_input_tokens: Some(100), total_output_tokens: Some(50) };
    let t = TranscriptTokens { input_tokens: 1, output_tokens: 2, cached_tokens: 3 };
    let m = compute_token_metrics(&ctx, Some(&t));
    assert_eq!(m.input_tokens, 100);
    assert_eq!(m.output_tokens, 50);
    assert_eq!(m.cached_tokens, 3);
    assert_eq!(m.total_tokens, 6);
}

#[test]
fn metrics_fall_back_to_transcript() {
    let ctx = ContextWindow::default();
    let t = TranscriptTokens { input_tokens: 1, output_tokens: 2, cached_tokens: 3 };
    let m = compute_token_metrics(&ctx, Some(&t));
    assert_eq!((m.input_tokens, m.output_tokens, m.cached_tokens, m.total_tokens), (1, 2, 3, 6));
}

#[test]
fn metrics_without_transcript() {
    let ctx = ContextWindow { total_input_tokens: Some(7), total_output_tokens: None };
    let m = compute_token_metrics(&ctx, None);
    assert_eq!((m.input_tokens, m.output_tokens, m.cached_tokens, m.total_tokens), (7, 0, 0, 0));
}

#[test]
fn transcript_order_does_not_matter() {
    let r1 = usage_record(5, 6, 7, 8);
    let r2 = obj(vec![("message", obj(vec![("usage", obj(vec![("output_tokens", num(100))]))]))]);
    let mut a = TranscriptTokens::new();
    a.absorb(&r1);
    a.absorb(&r2);
    let mut b = TranscriptTokens::new();
    b.absorb(&r2);
    b.absorb(&r1);
    assert_eq!((a.input_tokens, a.output_tokens, a.cached_tokens), (b.input_tokens, b.output_tokens, b.cached_tokens));
    assert_eq!((a.input_tokens, a.output_tokens, a.cached_tokens), (5, 106, 15));
}

#[test]
fn transcript_split_adds_up() {
    let part_a = vec![usage_record(1, 2, 3, 4), obj(vec![("x", num(1))])];
    let part_b = vec![usage_record(10, 20, 30, 40), usage_record(10, 20, 30, 40)];
    let fold = |records: &[JsonValue]| {
        let mut t = TranscriptTokens::new();
        for r in records {
            t.absorb(r);
        }
        (t.input_tokens, t.output_tokens, t.cached_tokens)
    };
    let whole: Vec<JsonValue> = usage_parts(&part_a, &part_b);
    let (a, b, w) = (fold(&part_a), fold(&part_b), fold(&whole));
    assert_eq!(w, (a.0 + b.0, a.1 + b.1, a.2 + b.2));
    // The repeated record is counted twice.
    assert_eq!(b, (20, 40, 140));
}

fn usage_parts(a: &[JsonValue], b: &[JsonValue]) -> Vec<JsonValue> {
    let clone = |v: &JsonValue| -> JsonValue {
        match v {
            JsonValue::Object(m) if m.len() == 1 && m[0].0 == "x" => obj(vec![("x", num(1))]),
            JsonValue::Object(m) => {
                let usage = m[0].1.get("usage").unwrap();
                let n = |k: &str| usage.get(k).and_then(|x| x.as_u64()).unwrap();
                usage_record(n("input_tokens"), n("output_tokens"), n("cache_read_input_tokens"), n("cache_creation_input_tokens"))
            }
            _ => JsonValue::Null,
        }
    };
    a.iter().chain(b.iter()).map(clone).collect()
}

#[test]
fn total_ignores_context_window() {
    let t = TranscriptTokens { input_tokens: 4, output_tokens: 5, cached_tokens: 6 };
    let c1 = ContextWindow { total_input_tokens: Some(1), total_output_tokens: Some(2) };
    let c2 = ContextWindow::default();
    assert_eq!(compute_token_metrics(&c1, Some(&t)).total_tokens, compute_token_metrics(&c2, Some(&t)).total_tokens);
    assert_eq!(compute_token_metrics(&c1, None).total_tokens, 0);
}

#[test]
fn transcript_lines_are_parsed() {
    let mut t = TranscriptTokens::new();
    let line = r#"{"message":{"usage":{"input_tokens":3,"output_tokens":4,"cache_read_input_tokens":5,"cache_creation_input_tokens":6}}}"#;
    assert!(!t.absorb_line(line));
    assert!(!t.absorb_line(line));
    assert!(!t.absorb_line("not json"));
    assert!(!t.absorb_line(r#"{"message":{"usage":{"input_tokens":2.5,"output_tokens":-1}}}"#));
    assert!(!t.absorb_line(r#"{"type":"user"}"#));
    assert_eq!((t.input_tokens, t.output_tokens, t.cached_tokens), (6, 8, 22));
}

#[test]
fn transcript_line_overflow_leaves_totals() {
    let mut t = TranscriptTokens { input_tokens: u64::MAX, output_tokens: 1, cached_tokens: 2 };
    assert!(t.absorb_line(r#"{"message":{"usage":{"input_tokens":1}}}"#));
    assert_eq!((t.input_tokens, t.output_tokens, t.cached_tokens), (u64::MAX, 1, 2));
}
