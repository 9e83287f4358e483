//! Cost accounting over the session logs of one day: per-model prices,
//! message de-duplication, the day's total, and the current five-hour
//! billing block with the duration its burn rate is taken over.
//!
//! Amounts of money are exact integers in units of 1e-7 US dollars
//! (`PRICE_UNITS_PER_USD` units make one dollar).
use vstd::prelude::*;
use crate::json::{JsonValue, json_get, json_get_opt, json_text_opt, json_document, parse_json};
use crate::text::{bytes_of, bytes_contain, bytes_start_with, str_contains, str_starts_with,
    str_equal};
use crate::timestamp::{parse_iso_epoch, epoch_parse_is_defined, epoch_parse_defined,
    iso_epoch_spec, field, closed_days_before_year, month_days_spec};
use crate::tokens::{record_usage, usage_count};

verus! {

/// Money units in one US dollar.
pub const PRICE_UNITS_PER_USD: u64 = 10_000_000;

/// Length of a billing block, in seconds (five hours).
pub const BLOCK_WINDOW_SECS: u64 = 18000;

/// A pause longer than this, in seconds, between two messages starts a new
/// billing block (thirty minutes).
pub const GAP_THRESHOLD_SECS: u64 = 1800;

/// Below a block duration of this many seconds no burn rate is given.
pub const MIN_BURN_SECS: u64 = 36;

/// Every timestamp that `parse_iso_epoch` yields is below this.
pub const EPOCH_LIMIT: u64 = 1_000_000_000_000;

/// Prices per token of one model, in money units: input, output, cache
/// creation and cache read. Cache creation is priced at 0.
pub struct ModelPricing {
    pub input: u64,
    pub output: u64,
    pub cache_creation: u64,
    pub cache_read: u64,
}

/// The model id mentions `name`.
pub open spec fn mentions(model: Seq<u8>, name: &str) -> bool {
    bytes_contain(model, bytes_of(name))
}

/// Prices by model id: Opus 4.5 and 4.6 at 5 / 25 / 0 / 0.5 dollars per
/// million tokens, Sonnet at 3 / 15 / 0 / 0.3, Haiku at 1 / 5 / 0 / 0.1,
/// other Opus models at 15 / 75 / 0 / 1.5, and anything else at Sonnet's
/// prices. The first rule whose name occurs in the id applies.
pub open spec fn pricing_spec(model: Seq<u8>) -> ModelPricing {
    if mentions(model, "opus-4-6") || mentions(model, "opus-4-5") {
        ModelPricing { input: 50, output: 250, cache_creation: 0, cache_read: 5 }
    } else if mentions(model, "sonnet") {
        ModelPricing { input: 30, output: 150, cache_creation: 0, cache_read: 3 }
    } else if mentions(model, "haiku") {
        ModelPricing { input: 10, output: 50, cache_creation: 0, cache_read: 1 }
    } else if mentions(model, "opus") {
        ModelPricing { input: 150, output: 750, cache_creation: 0, cache_read: 15 }
    } else {
        ModelPricing { input: 30, output: 150, cache_creation: 0, cache_read: 3 }
    }
}

/// The prices of the model `model_id`.
pub fn get_model_pricing(model_id: &str) -> (res: ModelPricing)
    ensures
        res == pricing_spec(bytes_of(model_id)),
{
    if str_contains(model_id, "opus-4-6") || str_contains(model_id, "opus-4-5") {
        ModelPricing { input: 50, output: 250, cache_creation: 0, cache_read: 5 }
    } else if str_contains(model_id, "sonnet") {
        ModelPricing { input: 30, output: 150, cache_creation: 0, cache_read: 3 }
    } else if str_contains(model_id, "haiku") {
        ModelPricing { input: 10, output: 50, cache_creation: 0, cache_read: 1 }
    } else if str_contains(model_id, "opus") {
        ModelPricing { input: 150, output: 750, cache_creation: 0, cache_read: 15 }
    } else {
        ModelPricing { input: 30, output: 150, cache_creation: 0, cache_read: 3 }
    }
}

// ---------------------------------------------------------------------------
// Reading a log record
// ---------------------------------------------------------------------------

/// A member of the record's `message` object.
pub open spec fn message_field(r: JsonValue, key: Seq<char>) -> Option<JsonValue> {
    json_get_opt(json_get(r, "message"@), key)
}

/// The record's `message.stop_reason` is a string.
pub open spec fn stop_reason_is_text(r: JsonValue) -> bool {
    json_text_opt(message_field(r, "stop_reason"@)) is Some
}

/// The record's timestamp: its own `timestamp` member when present,
/// otherwise `message.timestamp`, read as a string.
pub open spec fn timestamp_text(r: JsonValue) -> Option<Seq<char>> {
    json_text_opt(
        match json_get(r, "timestamp"@) {
            Some(v) => Some(v),
            None => message_field(r, "timestamp"@),
        },
    )
}

/// The UTF-8 bytes of the record's timestamp (empty when it has none).
pub open spec fn timestamp_bytes(r: JsonValue) -> Seq<u8> {
    vstd::utf8::encode_utf8(
        match timestamp_text(r) {
            Some(t) => t,
            None => Seq::empty(),
        },
    )
}

/// The record is a finished message (its stop reason is a string) whose
/// timestamp begins with the day prefix `prefix`.
pub open spec fn record_is_today(r: JsonValue, prefix: Seq<u8>) -> bool {
    stop_reason_is_text(r) && timestamp_text(r) is Some && bytes_start_with(timestamp_bytes(r), prefix)
}

/// A string member of `message`, or the empty string.
pub open spec fn message_text_or_empty(r: JsonValue, key: Seq<char>) -> Seq<char> {
    match json_text_opt(message_field(r, key)) {
        Some(s) => s,
        None => Seq::empty(),
    }
}

/// The record's message id (empty when it has none).
pub open spec fn record_id(r: JsonValue) -> Seq<char> {
    message_text_or_empty(r, "id"@)
}

/// The record's model id (empty when it has none).
pub open spec fn record_model(r: JsonValue) -> Seq<char> {
    message_text_or_empty(r, "model"@)
}

/// The cost of the record's usage at its model's prices.
pub open spec fn record_cost(r: JsonValue) -> int {
    let p = pricing_spec(vstd::utf8::encode_utf8(record_model(r)));
    usage_count(r, "input_tokens"@) * p.input
        + usage_count(r, "output_tokens"@) * p.output
        + usage_count(r, "cache_creation_input_tokens"@) * p.cache_creation
        + usage_count(r, "cache_read_input_tokens"@) * p.cache_read
}

/// Absorbing the record panics: it is a finished message of the day whose
/// timestamp cannot be read without a panic.
pub open spec fn absorb_panics_spec(r: JsonValue, prefix: Seq<u8>) -> bool {
    record_is_today(r, prefix) && !epoch_parse_defined(timestamp_bytes(r))
}

/// `a + b`, saturated at `u128::MAX`.
pub open spec fn sat_add(a: u128, b: int) -> u128 {
    if a + b > u128::MAX { u128::MAX } else { (a + b) as u128 }
}

// ---------------------------------------------------------------------------
// The day's tracker
// ---------------------------------------------------------------------------

/// The state of a cost scan: the day's cost, the current block's cost, the
/// first and the latest timestamp of the current block, and the message ids
/// counted so far, in the order they were met.
pub struct CostState {
    pub today_cost: u128,
    pub block_cost: u128,
    pub block_start: Option<u64>,
    pub block_last: Option<u64>,
    pub seen: Seq<Seq<char>>,
}

/// The empty state.
pub open spec fn initial_cost_state() -> CostState {
    CostState { today_cost: 0, block_cost: 0, block_start: None, block_last: None, seen: Seq::empty() }
}

/// The record's id is not empty and was counted before.
pub open spec fn is_duplicate(s: CostState, r: JsonValue) -> bool {
    record_id(r).len() > 0 && s.seen.contains(record_id(r))
}

/// The billing-block part of a step: a timestamp more than
/// `GAP_THRESHOLD_SECS` after the latest one, or the first timestamp, starts
/// a new block holding only this cost; another timestamp adds the cost to
/// the current block. Either way it becomes the latest timestamp.
pub open spec fn block_step(s: CostState, ts: u64, cost: int) -> CostState {
    let starts_new = match s.block_last {
        Some(last) => ts > last + GAP_THRESHOLD_SECS,
        None => true,
    };
    CostState {
        block_start: if starts_new { Some(ts) } else { s.block_start },
        block_cost: if starts_new { cost as u128 } else { sat_add(s.block_cost, cost) },
        block_last: Some(ts),
        ..s
    }
}

/// One step of the scan: a record that is not a finished message of the day,
/// or that repeats a counted id, changes nothing. Otherwise its id (when not
/// empty) is remembered; when it has a usage, its cost is added to the day's
/// total, and when its timestamp parses, to the billing block as well.
pub open spec fn cost_step(s: CostState, r: JsonValue, prefix: Seq<u8>) -> CostState {
    if !record_is_today(r, prefix) || is_duplicate(s, r) {
        s
    } else {
        let s1 = CostState {
            seen: if record_id(r).len() > 0 { s.seen.push(record_id(r)) } else { s.seen },
            ..s
        };
        if record_usage(r) is None {
            s1
        } else {
            let cost = record_cost(r);
            let s2 = CostState { today_cost: sat_add(s1.today_cost, cost), ..s1 };
            match iso_epoch_spec(timestamp_bytes(r)) {
                Some(ts) => block_step(s2, ts, cost),
                None => s2,
            }
        }
    }
}

/// The cost scan of one day. The counted message ids are kept in a vector
/// that holds no id twice; a lookup compares with each in turn.
pub struct CostTracker {
    today_cost: u128,
    block_cost: u128,
    block_start_ts: Option<u64>,
    block_last_ts: Option<u64>,
    seen_ids: Vec<String>,
}

impl View for CostTracker {
    type V = CostState;

    closed spec fn view(&self) -> CostState {
        CostState {
            today_cost: self.today_cost,
            block_cost: self.block_cost,
            block_start: self.block_start_ts,
            block_last: self.block_last_ts,
            seen: self.seen_ids@.map_values(|s: String| s@),
        }
    }
}

/// Timestamps of the state are below `EPOCH_LIMIT` and no id is counted
/// twice.
pub open spec fn cost_state_wf(s: CostState) -> bool {
    &&& (s.block_start matches Some(t) ==> t < EPOCH_LIMIT)
    &&& (s.block_last matches Some(t) ==> t < EPOCH_LIMIT)
    &&& forall|i: int, j: int| 0 <= i < j < s.seen.len() ==> s.seen[i] != s.seen[j]
}

/// A record cost is below 2^76.
proof fn lemma_cost_bound(r: JsonValue)
    ensures
        0 <= record_cost(r) < 0x1_0000_0000_0000_0000_0000,
{
    let p = pricing_spec(vstd::utf8::encode_utf8(record_model(r)));
    let a = usage_count(r, "input_tokens"@);
    let b = usage_count(r, "output_tokens"@);
    let c = usage_count(r, "cache_creation_input_tokens"@);
    let d = usage_count(r, "cache_read_input_tokens"@);
    assert(p.input <= 750 && p.output <= 750 && p.cache_creation <= 750 && p.cache_read <= 750);
    assert(a * p.input <= 0xffff_ffff_ffff_ffff * 750) by (nonlinear_arith)
        requires a <= 0xffff_ffff_ffff_ffff, p.input <= 750;
    assert(b * p.output <= 0xffff_ffff_ffff_ffff * 750) by (nonlinear_arith)
        requires b <= 0xffff_ffff_ffff_ffff, p.output <= 750;
    assert(c * p.cache_creation <= 0xffff_ffff_ffff_ffff * 750) by (nonlinear_arith)
        requires c <= 0xffff_ffff_ffff_ffff, p.cache_creation <= 750;
    assert(d * p.cache_read <= 0xffff_ffff_ffff_ffff * 750) by (nonlinear_arith)
        requires d <= 0xffff_ffff_ffff_ffff, p.cache_read <= 750;
    assert(a * p.input >= 0 && b * p.output >= 0 && c * p.cache_creation >= 0 && d * p.cache_read >= 0)
        by (nonlinear_arith)
        requires a >= 0, b >= 0, c >= 0, d >= 0, p.input >= 0, p.output >= 0,
            p.cache_creation >= 0, p.cache_read >= 0;
}

/// A timestamp that `parse_iso_epoch` yields is below `EPOCH_LIMIT`.
proof fn lemma_epoch_bound(b: Seq<u8>)
    requires
        epoch_parse_defined(b),
        iso_epoch_spec(b) is Some,
    ensures
        iso_epoch_spec(b)->0 < EPOCH_LIMIT,
{
    let y = field(b, 0, 4)->0;
    let mo = field(b, 5, 7)->0;
    crate::timestamp::lemma_field_small(b, 0, 4);
    crate::timestamp::lemma_field_small(b, 5, 7);
    crate::timestamp::lemma_field_small(b, 8, 10);
    crate::timestamp::lemma_field_small(b, 11, 13);
    crate::timestamp::lemma_field_small(b, 14, 16);
    crate::timestamp::lemma_field_small(b, 17, 19);
    assert(closed_days_before_year(y as int) <= 2932532);
    assert(month_days_spec(mo, y) <= 335);
}

impl CostTracker {
    #[verifier::type_invariant]
    spec fn well_formed(self) -> bool {
        cost_state_wf(self@)
    }

    /// A tracker that has seen nothing.
    pub fn new() -> (res: Self)
        ensures
            res@ == initial_cost_state(),
    {
        let res = CostTracker {
            today_cost: 0,
            block_cost: 0,
            block_start_ts: None,
            block_last_ts: None,
            seen_ids: Vec::new(),
        };
        assert(res@.seen =~= Seq::<Seq<char>>::empty());
        res
    }

    /// The day's cost so far.
    pub fn today_cost(&self) -> (res: u128)
        ensures
            res == self@.today_cost,
    {
        self.today_cost
    }

    /// The current block's cost so far.
    pub fn block_cost(&self) -> (res: u128)
        ensures
            res == self@.block_cost,
    {
        self.block_cost
    }

    /// The first timestamp of the current block.
    pub fn block_start_ts(&self) -> (res: Option<u64>)
        ensures
            res == self@.block_start,
    {
        self.block_start_ts
    }

    /// The latest timestamp of the current block.
    pub fn block_last_ts(&self) -> (res: Option<u64>)
        ensures
            res == self@.block_last,
    {
        self.block_last_ts
    }

    /// Whether `id` was counted before.
    fn has_seen(&self, id: &str) -> (res: bool)
        ensures
            res == self@.seen.contains(id@),
    {
        let n = self.seen_ids.len();
        let mut i: usize = 0;
        while i < n
            invariant
                n == self.seen_ids@.len(),
                i <= n,
                self@.seen.len() == n,
                forall|k: int| 0 <= k < i ==> self@.seen[k] != id@,
            decreases n - i,
        {
            if str_equal(self.seen_ids[i].as_str(), id) {
                assert(self@.seen[i as int] == id@);
                return true;
            }
            i = i + 1;
        }
        false
    }

    /// Whether absorbing `record` panics: it is a finished message of the day
    /// whose timestamp cannot be parsed without a panic.
    pub fn absorb_panics(record: &JsonValue, today_prefix: &str) -> (res: bool)
        ensures
            res == absorb_panics_spec(*record, bytes_of(today_prefix)),
    {
        match Self::todays_timestamp(record, today_prefix) {
            Some(ts) => !epoch_parse_is_defined(ts),
            None => false,
        }
    }

    /// The timestamp of a finished message of the day, `None` for any other
    /// record.
    fn todays_timestamp<'a>(record: &'a JsonValue, today_prefix: &str) -> (res: Option<&'a str>)
        ensures
            res is Some == record_is_today(*record, bytes_of(today_prefix)),
            res matches Some(t) ==> t@ == timestamp_text(*record)->0,
    {
        let message = record.get("message");
        let stop_is_text = match message {
            Some(m) => match m.get("stop_reason") {
                Some(v) => v.is_text(),
                None => false,
            },
            None => false,
        };
        if !stop_is_text {
            return None;
        }
        let ts_value = match record.get("timestamp") {
            Some(v) => Some(v),
            None => match message {
                Some(m) => m.get("timestamp"),
                None => None,
            },
        };
        let ts = match ts_value {
            Some(v) => v.as_text(),
            None => None,
        };
        match ts {
            Some(t) => {
                if str_starts_with(t, today_prefix) {
                    Some(t)
                } else {
                    None
                }
            },
            None => None,
        }
    }

    /// A string member of the record's `message`.
    fn message_text<'a>(record: &'a JsonValue, key: &str) -> (res: Option<&'a str>)
        ensures
            res is Some == json_text_opt(message_field(*record, key@)) is Some,
            res matches Some(t) ==> t@ == json_text_opt(message_field(*record, key@))->0,
    {
        match record.get("message") {
            Some(m) => match m.get(key) {
                Some(v) => v.as_text(),
                None => None,
            },
            None => None,
        }
    }

    /// The unsigned count under `key` of a usage object, 0 otherwise.
    fn count(usage: &JsonValue, key: &str) -> (res: u64)
        ensures
            res == crate::json::json_u64_or_zero(json_get(*usage, key@)),
    {
        match usage.get(key) {
            Some(v) => match v.as_u64() {
                Some(n) => n,
                None => 0,
            },
            None => 0,
        }
    }

    /// Takes one log record into account: see `cost_step`.
    pub fn absorb(&mut self, record: &JsonValue, today_prefix: &str)
        requires
            !absorb_panics_spec(*record, bytes_of(today_prefix)),
        ensures
            final(self)@ == cost_step(old(self)@, *record, bytes_of(today_prefix)),
    {
        proof {
            use_type_invariant(&*self);
        }
        let ts = match Self::todays_timestamp(record, today_prefix) {
            Some(t) => t,
            None => return,
        };
        let epoch = parse_iso_epoch(ts);
        proof {
            if epoch is Some {
                lemma_epoch_bound(timestamp_bytes(*record));
            }
        }
        let id = Self::message_text(record, "id");
        match id {
            Some(i) => {
                if !i.is_empty() {
                    if self.has_seen(i) {
                        return;
                    }
                    let mut owned = String::new();
                    owned.append(i);
                    let ghost before = self@.seen;
                    let mut ids: Vec<String> = Vec::new();
                    std::mem::swap(&mut ids, &mut self.seen_ids);
                    ids.push(owned);
                    proof {
                        let after = before.push(i@);
                        assert(ids@.map_values(|s: String| s@) =~= after);
                        assert forall|a: int, b: int| 0 <= a < b < after.len() implies after[a] != after[b] by {
                            if b == after.len() - 1 {
                                assert(after[a] == before[a]);
                            }
                        }
                    }
                    self.seen_ids = ids;
                    assert(self@.seen =~= before.push(i@));
                }
            },
            None => {},
        }
        let usage = match record.get("message") {
            Some(m) => m.get("usage"),
            None => None,
        };
        let u = match usage {
            Some(u) => u,
            None => return,
        };
        let model = match Self::message_text(record, "model") {
            Some(m) => m,
            None => "",
        };
        assert(model@ == record_model(*record)) by {
            reveal_strlit("");
        }
        let p = get_model_pricing(model);
        proof {
            lemma_cost_bound(*record);
        }
        let cost: u128 = Self::count(u, "input_tokens") as u128 * p.input as u128
            + Self::count(u, "output_tokens") as u128 * p.output as u128
            + Self::count(u, "cache_creation_input_tokens") as u128 * p.cache_creation as u128
            + Self::count(u, "cache_read_input_tokens") as u128 * p.cache_read as u128;
        self.today_cost = self.today_cost.saturating_add(cost);
        match epoch {
            Some(t) => {
                let starts_new = match self.block_last_ts {
                    Some(last) => t > last + GAP_THRESHOLD_SECS,
                    None => true,
                };
                if starts_new {
                    self.block_start_ts = Some(t);
                    self.block_cost = cost;
                } else {
                    self.block_cost = self.block_cost.saturating_add(cost);
                }
                self.block_last_ts = Some(t);
            },
            None => {},
        }
    }

    /// Takes one line of a session log into account. A line that does not
    /// mention both `"usage"` and `"stop_reason"`, or is not a JSON document,
    /// changes nothing. Otherwise its record is absorbed as by `absorb`,
    /// unless absorbing it panics, in which case nothing changes and `true`
    /// is returned (the caller panics then).
    pub fn absorb_line(&mut self, line: &str, today_prefix: &str) -> (panics: bool)
        ensures
            !line_mentions_usage_spec(line) ==> !panics && final(self)@ == old(self)@,
            line_mentions_usage_spec(line) ==> match json_document(line@) {
                Some(r) => {
                    &&& panics == absorb_panics_spec(r, bytes_of(today_prefix))
                    &&& panics ==> final(self)@ == old(self)@
                    &&& !panics ==> final(self)@ == cost_step(old(self)@, r, bytes_of(today_prefix))
                },
                None => !panics && final(self)@ == old(self)@,
            },
    {
        if !line_mentions_usage(line) {
            return false;
        }
        match parse_json(line) {
            Some(record) => {
                if Self::absorb_panics(&record, today_prefix) {
                    true
                } else {
                    self.absorb(&record, today_prefix);
                    false
                }
            },
            None => false,
        }
    }

    /// The figures of the scan at time `now`: see `CostSummary`.
    pub fn summarize(&self, now: u64) -> (res: CostSummary)
        requires
            !summarize_panics_spec(self@),
        ensures
            res == summary_spec(self@, now),
    {
        proof {
            use_type_invariant(self);
        }
        let block_remaining_min: i64 = match self.block_start_ts {
            Some(start) => {
                let end = start + BLOCK_WINDOW_SECS;
                if now < end {
                    ((end - now) / 60) as i64
                } else {
                    0
                }
            },
            None => 0,
        };
        let burn_elapsed_secs = match (self.block_start_ts, self.block_last_ts) {
            (Some(start), Some(last)) => {
                let elapsed = last - start;
                if elapsed > MIN_BURN_SECS {
                    Some(elapsed)
                } else {
                    None
                }
            },
            _ => None,
        };
        CostSummary {
            today_cost: self.today_cost,
            block_cost: self.block_cost,
            block_remaining_min,
            burn_elapsed_secs,
        }
    }
}

/// What a scan reports: the day's cost, the current block's cost, the
/// minutes left in the current block, and the block's duration in seconds
/// when it exceeds `MIN_BURN_SECS` (the burn rate per hour is then the
/// block's cost times 3600 over that duration, and 0 otherwise).
pub struct CostSummary {
    pub today_cost: u128,
    pub block_cost: u128,
    pub block_remaining_min: i64,
    pub burn_elapsed_secs: Option<u64>,
}

/// Summarizing panics: the latest timestamp of the block is earlier than its
/// first.
pub open spec fn summarize_panics_spec(s: CostState) -> bool {
    match (s.block_start, s.block_last) {
        (Some(start), Some(last)) => last < start,
        _ => false,
    }
}

/// Minutes left, rounded down, until the block that began at `start` is
/// `BLOCK_WINDOW_SECS` old; 0 once it is, or without a block.
pub open spec fn remaining_minutes(start: Option<u64>, now: u64) -> i64 {
    match start {
        Some(st) => if now < st + BLOCK_WINDOW_SECS {
            ((st + BLOCK_WINDOW_SECS - now) / 60) as i64
        } else {
            0
        },
        None => 0,
    }
}

/// The summary of state `s` at time `now`.
pub open spec fn summary_spec(s: CostState, now: u64) -> CostSummary {
    CostSummary {
        today_cost: s.today_cost,
        block_cost: s.block_cost,
        block_remaining_min: remaining_minutes(s.block_start, now),
        burn_elapsed_secs: match (s.block_start, s.block_last) {
            (Some(start), Some(last)) => if last - start > MIN_BURN_SECS {
                Some((last - start) as u64)
            } else {
                None
            },
            _ => None,
        },
    }
}

/// `line` mentions both `"usage"` and `"stop_reason"`.
pub open spec fn line_mentions_usage_spec(line: &str) -> bool {
    bytes_contain(bytes_of(line), bytes_of("\"usage\""))
        && bytes_contain(bytes_of(line), bytes_of("\"stop_reason\""))
}

/// A log line can hold a finished message with usage only when it mentions
/// both `"usage"` and `"stop_reason"`; other lines are not parsed.
pub fn line_mentions_usage(line: &str) -> (res: bool)
    ensures
        res == line_mentions_usage_spec(line),
{
    str_contains(line, "\"usage\"") && str_contains(line, "\"stop_reason\"")
}

/// A log file last modified at `modified` is read at time `now` only when it
/// was modified at most a day (86400 seconds) earlier.
pub fn modified_within_day(now: u64, modified: u64) -> (res: bool)
    requires
        modified <= now,
    ensures
        res == (now - modified <= 86400),
{
    now - modified <= 86400
}

// ---------------------------------------------------------------------------
// Laws
// ---------------------------------------------------------------------------

/// Cache creation is never charged, whatever the model.
pub proof fn law_cache_creation_is_free(model: Seq<u8>)
    ensures
        pricing_spec(model).cache_creation == 0,
{
}

/// A message whose id was already counted changes nothing.
pub proof fn law_counted_message_is_skipped(s: CostState, r: JsonValue, prefix: Seq<u8>)
    requires
        record_id(r).len() > 0,
        s.seen.contains(record_id(r)),
    ensures
        cost_step(s, r, prefix) == s,
{
}

/// Taking the same message (one with an id) in twice counts it once.
pub proof fn law_message_counted_once(s: CostState, r: JsonValue, prefix: Seq<u8>)
    requires
        record_id(r).len() > 0,
    ensures
        cost_step(cost_step(s, r, prefix), r, prefix) == cost_step(s, r, prefix),
{
    let s1 = cost_step(s, r, prefix);
    if record_is_today(r, prefix) && !is_duplicate(s, r) {
        assert(s1.seen.contains(record_id(r))) by {
            assert(s1.seen[s1.seen.len() - 1] == record_id(r));
        }
    }
}

/// The day's cost never decreases from one record to the next.
pub proof fn law_today_cost_never_decreases(s: CostState, r: JsonValue, prefix: Seq<u8>)
    ensures
        cost_step(s, r, prefix).today_cost >= s.today_cost,
{
    lemma_cost_bound(r);
}

/// Every step keeps the state well formed: timestamps below `EPOCH_LIMIT`
/// and no id counted twice.
pub proof fn law_step_keeps_wf(s: CostState, r: JsonValue, prefix: Seq<u8>)
    requires
        cost_state_wf(s),
        !absorb_panics_spec(r, prefix),
    ensures
        cost_state_wf(cost_step(s, r, prefix)),
{
    if record_is_today(r, prefix) && !is_duplicate(s, r) {
        if iso_epoch_spec(timestamp_bytes(r)) is Some {
            lemma_epoch_bound(timestamp_bytes(r));
        }
        let s1 = cost_step(s, r, prefix);
        if record_id(r).len() > 0 {
            let after = s.seen.push(record_id(r));
            assert(s1.seen == after);
            assert forall|a: int, b: int| 0 <= a < b < after.len() implies after[a] != after[b] by {
                if b == after.len() - 1 {
                    assert(after[a] == s.seen[a]);
                }
            }
        }
    }
}

/// The minutes left in a block that began no later than `now` lie between 0
/// and five hours.
pub proof fn law_remaining_within_block(s: CostState, now: u64)
    requires
        cost_state_wf(s),
        s.block_start matches Some(st) ==> st <= now,
    ensures
        0 <= summary_spec(s, now).block_remaining_min <= 300,
{
    if let Some(st) = s.block_start {
        if now < st + BLOCK_WINDOW_SECS {
            let x = st + BLOCK_WINDOW_SECS - now;
            assert(0 < x <= 18000);
            let m = x / 60;
            assert(0 <= m <= 300) by (nonlinear_arith)
                requires 0 < x <= 18000, m == x / 60;
            assert(m as i64 == m);
        }
    }
}

/// A timestamp that parses becomes the block's latest, and a block starts at
/// the first timestamp or after a pause longer than the gap threshold.
pub proof fn law_block_follows_timestamps(s: CostState, r: JsonValue, prefix: Seq<u8>)
    requires
        record_is_today(r, prefix),
        !is_duplicate(s, r),
        record_usage(r) is Some,
        iso_epoch_spec(timestamp_bytes(r)) is Some,
    ensures
        ({
            let ts = iso_epoch_spec(timestamp_bytes(r))->0;
            let s1 = cost_step(s, r, prefix);
            &&& s1.block_last == Some(ts)
            &&& (s.block_last is None || ts > s.block_last->0 + GAP_THRESHOLD_SECS)
                ==> s1.block_start == Some(ts) && s1.block_cost == record_cost(r)
            &&& (s.block_last is Some && ts <= s.block_last->0 + GAP_THRESHOLD_SECS)
                ==> s1.block_start == s.block_start
                    && s1.block_cost == sat_add(s.block_cost, record_cost(r))
        }),
{
    lemma_cost_bound(r);
}

/// Opus 4.5 and 4.6 ids are priced 50 / 250 / 0 / 5 units per token.
pub proof fn law_pricing_opus_4_5_and_4_6(model: Seq<u8>)
    requires
        bytes_contain(model, bytes_of("opus-4-6")) || bytes_contain(model, bytes_of("opus-4-5")),
    ensures
        pricing_spec(model) == (ModelPricing { input: 50, output: 250, cache_creation: 0, cache_read: 5 }),
{
}

/// Sonnet ids (not Opus 4.5 or 4.6) are priced 30 / 150 / 0 / 3 units per token.
pub proof fn law_pricing_sonnet(model: Seq<u8>)
    requires
        !bytes_contain(model, bytes_of("opus-4-6")),
        !bytes_contain(model, bytes_of("opus-4-5")),
        bytes_contain(model, bytes_of("sonnet")),
    ensures
        pricing_spec(model) == (ModelPricing { input: 30, output: 150, cache_creation: 0, cache_read: 3 }),
{
}

/// Haiku ids (not Opus 4.5 or 4.6, not Sonnet) are priced 10 / 50 / 0 / 1
/// units per token.
pub proof fn law_pricing_haiku(model: Seq<u8>)
    requires
        !bytes_contain(model, bytes_of("opus-4-6")),
        !bytes_contain(model, bytes_of("opus-4-5")),
        !bytes_contain(model, bytes_of("sonnet")),
        bytes_contain(model, bytes_of("haiku")),
    ensures
        pricing_spec(model) == (ModelPricing { input: 10, output: 50, cache_creation: 0, cache_read: 1 }),
{
}

/// Other Opus ids are priced 150 / 750 / 0 / 15 units per token.
pub proof fn law_pricing_other_opus(model: Seq<u8>)
    requires
        !bytes_contain(model, bytes_of("opus-4-6")),
        !bytes_contain(model, bytes_of("opus-4-5")),
        !bytes_contain(model, bytes_of("sonnet")),
        !bytes_contain(model, bytes_of("haiku")),
        bytes_contain(model, bytes_of("opus")),
    ensures
        pricing_spec(model) == (ModelPricing { input: 150, output: 750, cache_creation: 0, cache_read: 15 }),
{
}

/// Ids of no known family get Sonnet's prices, 30 / 150 / 0 / 3 units.
pub proof fn law_pricing_default(model: Seq<u8>)
    requires
        !bytes_contain(model, bytes_of("opus-4-6")),
        !bytes_contain(model, bytes_of("opus-4-5")),
        !bytes_contain(model, bytes_of("sonnet")),
        !bytes_contain(model, bytes_of("haiku")),
        !bytes_contain(model, bytes_of("opus")),
    ensures
        pricing_spec(model) == (ModelPricing { input: 30, output: 150, cache_creation: 0, cache_read: 3 }),
{
}

/// A counted record with a usage object adds to the day's cost (below
/// saturation) its four usage counts, each read from `message.usage` under
/// its own key (0 when absent or not an unsigned integer), times the
/// matching price of the record's `message.model`: input, output, cache
/// creation and cache read.
pub proof fn law_record_cost_charges_each_count(s: CostState, r: JsonValue, prefix: Seq<u8>)
    requires
        record_is_today(r, prefix),
        !is_duplicate(s, r),
        json_get_opt(json_get(r, "message"@), "usage"@) is Some,
    ensures
        ({
            let message = json_get(r, "message"@);
            let usage = json_get_opt(message, "usage"@);
            let count = |key: Seq<char>| crate::json::json_u64_or_zero(json_get_opt(usage, key)) as int;
            let model = match json_text_opt(json_get_opt(message, "model"@)) {
                Some(m) => m,
                None => Seq::empty(),
            };
            let p = pricing_spec(vstd::utf8::encode_utf8(model));
            let charge = count("input_tokens"@) * p.input + count("output_tokens"@) * p.output
                + count("cache_creation_input_tokens"@) * p.cache_creation
                + count("cache_read_input_tokens"@) * p.cache_read;
            s.today_cost + charge <= u128::MAX
                ==> cost_step(s, r, prefix).today_cost == s.today_cost + charge
        }),
{
    lemma_cost_bound(r);
}

/// The summary reports the state's own figures: the day's cost, and the
/// cost accumulated since the current block started (not the day's cost).
pub proof fn law_summary_reports_state(s: CostState, now: u64)
    ensures
        summary_spec(s, now).today_cost == s.today_cost,
        summary_spec(s, now).block_cost == s.block_cost,
        s.block_start is None ==> summary_spec(s, now).block_remaining_min == 0,
        s.block_start matches Some(st) ==> (now >= st + BLOCK_WINDOW_SECS
            ==> summary_spec(s, now).block_remaining_min == 0),
        s.block_start matches Some(st) ==> (st <= now && now < st + BLOCK_WINDOW_SECS
            ==> summary_spec(s, now).block_remaining_min as int == (st + BLOCK_WINDOW_SECS - now) / 60),
        (s.block_start is None || s.block_last is None) ==> summary_spec(s, now).burn_elapsed_secs is None,
        s.block_start matches Some(st) ==> (s.block_last matches Some(l) ==> (l >= st
            ==> summary_spec(s, now).burn_elapsed_secs == if l - st > MIN_BURN_SECS { Some((l - st) as u64) } else { None })),
{
    if let Some(st) = s.block_start {
        if st <= now && now < st + BLOCK_WINDOW_SECS {
            let x = st + BLOCK_WINDOW_SECS - now;
            let m = x / 60;
            assert(0 <= m <= 300) by (nonlinear_arith)
                requires 0 < x <= 18000, m == x / 60;
        }
    }
}

/// After a counted record whose timestamp starts a new block (the first
/// timestamp, or one more than the gap after the latest), the summary's
/// block cost is that record's charge alone, whatever the day cost before.
pub proof fn law_new_block_summary_holds_only_its_record(
    s: CostState,
    r: JsonValue,
    prefix: Seq<u8>,
    now: u64,
)
    requires
        record_is_today(r, prefix),
        !is_duplicate(s, r),
        json_get_opt(json_get(r, "message"@), "usage"@) is Some,
        iso_epoch_spec(timestamp_bytes(r)) is Some,
        s.block_last is None
            || iso_epoch_spec(timestamp_bytes(r))->0 > s.block_last->0 + GAP_THRESHOLD_SECS,
    ensures
        ({
            let message = json_get(r, "message"@);
            let usage = json_get_opt(message, "usage"@);
            let count = |key: Seq<char>| crate::json::json_u64_or_zero(json_get_opt(usage, key)) as int;
            let model = match json_text_opt(json_get_opt(message, "model"@)) {
                Some(m) => m,
                None => Seq::empty(),
            };
            let p = pricing_spec(vstd::utf8::encode_utf8(model));
            let charge = count("input_tokens"@) * p.input + count("output_tokens"@) * p.output
                + count("cache_creation_input_tokens"@) * p.cache_creation
                + count("cache_read_input_tokens"@) * p.cache_read;
            summary_spec(cost_step(s, r, prefix), now).block_cost == charge
        }),
{
    lemma_cost_bound(r);
}

/// Two finished messages of the day with the same non-empty
/// `message.id` are counted once: after the first, the second changes
/// nothing, whatever else it holds.
pub proof fn law_same_id_counted_once(s: CostState, r1: JsonValue, r2: JsonValue, prefix: Seq<u8>)
    requires
        record_is_today(r1, prefix),
        json_text_opt(json_get_opt(json_get(r1, "message"@), "id"@)) matches Some(i) && i.len() > 0,
        json_text_opt(json_get_opt(json_get(r2, "message"@), "id"@))
            == json_text_opt(json_get_opt(json_get(r1, "message"@), "id"@)),
    ensures
        cost_step(cost_step(s, r1, prefix), r2, prefix) == cost_step(s, r1, prefix),
{
    let s1 = cost_step(s, r1, prefix);
    if !is_duplicate(s, r1) {
        assert(s1.seen[s1.seen.len() - 1] == record_id(r1));
    }
    assert(s1.seen.contains(record_id(r2)));
}

/// A record whose `message.stop_reason` is not a string, or whose
/// timestamp (its own `timestamp` when present, else `message.timestamp`)
/// is not a string beginning with the day prefix, changes nothing.
pub proof fn law_only_finished_messages_of_the_day_count(s: CostState, r: JsonValue, prefix: Seq<u8>)
    ensures
        ({
            let message = json_get(r, "message"@);
            let stop = json_text_opt(json_get_opt(message, "stop_reason"@));
            let ts = json_text_opt(
                if json_get(r, "timestamp"@) is Some { json_get(r, "timestamp"@) } else { json_get_opt(message, "timestamp"@) },
            );
            (stop is None || ts is None
                || !bytes_start_with(vstd::utf8::encode_utf8(ts->0), prefix))
                ==> cost_step(s, r, prefix) == s
        }),
{
}

/// A record's own `timestamp` member, when present, is the one read, even
/// when `message.timestamp` is also present; otherwise `message.timestamp`.
pub proof fn law_record_timestamp_source(r: JsonValue)
    ensures
        json_get(r, "timestamp"@) matches Some(v) ==> timestamp_text(r) == crate::json::json_text(v),
        json_get(r, "timestamp"@) is None
            ==> timestamp_text(r) == json_text_opt(json_get_opt(json_get(r, "message"@), "timestamp"@)),
{
}

} // verus!
