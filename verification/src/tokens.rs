//! Token counts of a session: the totals of a transcript, and the four
//! counts that the status line shows.
use vstd::prelude::*;
use crate::json::{JsonValue, json_get, json_get_opt, json_u64_or_zero, json_document, parse_json};
use crate::models::ContextWindow;

verus! {

/// The four counts shown on the status line.
pub struct TokenMetrics {
    pub input_tokens: u64,
    pub output_tokens: u64,
    pub cached_tokens: u64,
    pub total_tokens: u64,
}

/// Token totals summed over the records of a transcript.
pub struct TranscriptTokens {
    pub input_tokens: u64,
    pub output_tokens: u64,
    pub cached_tokens: u64,
}

/// The `message.usage` member of a transcript record, when present.
pub open spec fn record_usage(record: JsonValue) -> Option<JsonValue> {
    json_get_opt(json_get(record, "message"@), "usage"@)
}

/// A count of the usage of `record`, 0 when absent or not an unsigned integer.
pub open spec fn usage_count(record: JsonValue, key: Seq<char>) -> u64 {
    json_u64_or_zero(json_get_opt(record_usage(record), key))
}

/// The input tokens that a record adds.
pub open spec fn record_input(record: JsonValue) -> int {
    usage_count(record, "input_tokens"@) as int
}

/// The output tokens that a record adds.
pub open spec fn record_output(record: JsonValue) -> int {
    usage_count(record, "output_tokens"@) as int
}

/// The cached tokens that a record adds: cache reads plus cache creations.
pub open spec fn record_cached(record: JsonValue) -> int {
    usage_count(record, "cache_read_input_tokens"@) + usage_count(record, "cache_creation_input_tokens"@)
}

/// Adding the counts of `record` to `totals` stays within `u64`.
pub open spec fn absorb_fits(totals: TranscriptTokens, record: JsonValue) -> bool {
    record_usage(record) is Some ==> {
        &&& totals.input_tokens + record_input(record) <= u64::MAX
        &&& totals.output_tokens + record_output(record) <= u64::MAX
        &&& totals.cached_tokens + record_cached(record) <= u64::MAX
    }
}

/// The totals after adding `record` (when it fits in `u64`): its usage counts
/// are added; a record without `message.usage` adds nothing.
pub open spec fn transcript_step(totals: TranscriptTokens, record: JsonValue) -> TranscriptTokens {
    if record_usage(record) is None {
        totals
    } else {
        TranscriptTokens {
            input_tokens: (totals.input_tokens + record_input(record)) as u64,
            output_tokens: (totals.output_tokens + record_output(record)) as u64,
            cached_tokens: (totals.cached_tokens + record_cached(record)) as u64,
        }
    }
}

/// The unsigned count under `key` of an optional usage object, 0 otherwise.
fn usage_value(usage: &JsonValue, key: &str) -> (res: u64)
    ensures
        res == json_u64_or_zero(json_get(*usage, key@)),
{
    match usage.get(key) {
        Some(v) => match v.as_u64() {
            Some(n) => n,
            None => 0,
        },
        None => 0,
    }
}

/// The `message.usage` member of a record.
fn usage_of(record: &JsonValue) -> (res: Option<&JsonValue>)
    ensures
        res is Some == record_usage(*record) is Some,
        res matches Some(u) ==> *u == record_usage(*record)->0,
{
    match record.get("message") {
        Some(m) => m.get("usage"),
        None => None,
    }
}

impl TranscriptTokens {
    /// Takes one line of a transcript into account: a line that is not a JSON
    /// document is skipped; otherwise its record is added as by `absorb`,
    /// unless that would exceed `u64`, in which case nothing changes and
    /// `true` is returned (the caller panics then).
    pub fn absorb_line(&mut self, line: &str) -> (overflow: bool)
        ensures
            match json_document(line@) {
                Some(r) => if absorb_fits(*old(self), r) {
                    !overflow && *final(self) == transcript_step(*old(self), r)
                } else {
                    overflow && *final(self) == *old(self)
                },
                None => !overflow && *final(self) == *old(self),
            },
    {
        match parse_json(line) {
            Some(record) => {
                if self.absorb_overflows(&record) {
                    true
                } else {
                    self.absorb(&record);
                    false
                }
            },
            None => false,
        }
    }

    /// Totals of an empty transcript.
    pub fn new() -> (res: Self)
        ensures
            res.input_tokens == 0,
            res.output_tokens == 0,
            res.cached_tokens == 0,
    {
        TranscriptTokens { input_tokens: 0, output_tokens: 0, cached_tokens: 0 }
    }

    /// Whether adding `record` would exceed `u64` (adding it panics then).
    pub fn absorb_overflows(&self, record: &JsonValue) -> (res: bool)
        ensures
            res == !absorb_fits(*self, *record),
    {
        match usage_of(record) {
            None => false,
            Some(u) => {
                let i = usage_value(u, "input_tokens");
                let o = usage_value(u, "output_tokens");
                let r = usage_value(u, "cache_read_input_tokens");
                let c = usage_value(u, "cache_creation_input_tokens");
                i > u64::MAX - self.input_tokens
                    || o > u64::MAX - self.output_tokens
                    || r > u64::MAX - self.cached_tokens
                    || c > u64::MAX - self.cached_tokens - r
            },
        }
    }

    /// Adds the usage of one transcript record: its `message.usage` input,
    /// output, cache-read and cache-creation counts (each 0 when missing or
    /// not an unsigned integer). A record without `message.usage` adds
    /// nothing.
    pub fn absorb(&mut self, record: &JsonValue)
        requires
            absorb_fits(*old(self), *record),
        ensures
            *final(self) == transcript_step(*old(self), *record),
    {
        match usage_of(record) {
            None => {},
            Some(u) => {
                self.input_tokens = self.input_tokens + usage_value(u, "input_tokens");
                self.output_tokens = self.output_tokens + usage_value(u, "output_tokens");
                self.cached_tokens = self.cached_tokens + usage_value(u, "cache_read_input_tokens");
                self.cached_tokens = self.cached_tokens + usage_value(u, "cache_creation_input_tokens");
            },
        }
    }
}

/// The order in which two records are added does not change the totals.
pub proof fn law_transcript_order_irrelevant(t: TranscriptTokens, r1: JsonValue, r2: JsonValue)
    requires
        absorb_fits(t, r1),
        absorb_fits(transcript_step(t, r1), r2),
        absorb_fits(t, r2),
        absorb_fits(transcript_step(t, r2), r1),
    ensures
        transcript_step(transcript_step(t, r1), r2) == transcript_step(transcript_step(t, r2), r1),
{
}

/// The totals of an empty transcript.
pub open spec fn empty_totals() -> TranscriptTokens {
    TranscriptTokens { input_tokens: 0, output_tokens: 0, cached_tokens: 0 }
}

/// The totals after adding the records of `records` in order, from `t`.
pub open spec fn transcript_fold(t: TranscriptTokens, records: Seq<JsonValue>) -> TranscriptTokens
    decreases records.len(),
{
    if records.len() == 0 {
        t
    } else {
        transcript_step(transcript_fold(t, records.drop_last()), records.last())
    }
}

/// The input, output and cached tokens of all records with a
/// `message.usage`, summed without bound.
pub open spec fn usage_sums(records: Seq<JsonValue>) -> (int, int, int)
    decreases records.len(),
{
    if records.len() == 0 {
        (0, 0, 0)
    } else {
        let (i, o, c) = usage_sums(records.drop_last());
        let r = records.last();
        if record_usage(r) is Some {
            (i + record_input(r), o + record_output(r), c + record_cached(r))
        } else {
            (i, o, c)
        }
    }
}

/// Adding the sums of `records` to `t` stays within `u64`.
pub open spec fn fold_fits(t: TranscriptTokens, records: Seq<JsonValue>) -> bool {
    &&& t.input_tokens + usage_sums(records).0 <= u64::MAX
    &&& t.output_tokens + usage_sums(records).1 <= u64::MAX
    &&& t.cached_tokens + usage_sums(records).2 <= u64::MAX
}

proof fn lemma_usage_sums_nonneg(records: Seq<JsonValue>)
    ensures
        usage_sums(records).0 >= 0,
        usage_sums(records).1 >= 0,
        usage_sums(records).2 >= 0,
    decreases records.len(),
{
    if records.len() > 0 {
        lemma_usage_sums_nonneg(records.drop_last());
    }
}

/// The sums over a transcript split in two are the sums of the parts.
pub proof fn law_usage_sums_additive(a: Seq<JsonValue>, b: Seq<JsonValue>)
    ensures
        usage_sums(a + b) == (usage_sums(a).0 + usage_sums(b).0, usage_sums(a).1 + usage_sums(b).1,
            usage_sums(a).2 + usage_sums(b).2),
    decreases b.len(),
{
    if b.len() == 0 {
        assert(a + b =~= a);
    } else {
        law_usage_sums_additive(a, b.drop_last());
        assert((a + b).drop_last() =~= a + b.drop_last());
        assert((a + b).last() == b.last());
    }
}

/// Adding the records one by one, with every step within `u64`, gives the
/// starting totals plus the sums of the records.
pub proof fn law_fold_adds_sums(t: TranscriptTokens, records: Seq<JsonValue>)
    requires
        fold_fits(t, records),
    ensures
        transcript_fold(t, records).input_tokens == t.input_tokens + usage_sums(records).0,
        transcript_fold(t, records).output_tokens == t.output_tokens + usage_sums(records).1,
        transcript_fold(t, records).cached_tokens == t.cached_tokens + usage_sums(records).2,
        forall|k: int| 0 <= k < records.len() ==>
            absorb_fits(#[trigger] transcript_fold(t, records.take(k)), records[k]),
    decreases records.len(),
{
    if records.len() > 0 {
        let init = records.drop_last();
        lemma_usage_sums_nonneg(records);
        lemma_usage_sums_nonneg(init);
        law_fold_adds_sums(t, init);
        assert forall|k: int| 0 <= k < records.len() implies
            absorb_fits(#[trigger] transcript_fold(t, records.take(k)), records[k]) by {
            if k < init.len() {
                assert(records.take(k) =~= init.take(k));
                assert(records[k] == init[k]);
            } else {
                assert(records.take(k) =~= init);
            }
        }
    }
}

/// Adding `a` and then `b` is adding `a + b`.
pub proof fn law_fold_concat(t: TranscriptTokens, a: Seq<JsonValue>, b: Seq<JsonValue>)
    ensures
        transcript_fold(t, a + b) == transcript_fold(transcript_fold(t, a), b),
    decreases b.len(),
{
    if b.len() == 0 {
        assert(a + b =~= a);
    } else {
        law_fold_concat(t, a, b.drop_last());
        assert((a + b).drop_last() =~= a + b.drop_last());
        assert((a + b).last() == b.last());
    }
}

/// The totals of a transcript split in two are, field by field, the totals
/// of each part read alone; a record without usage adds nothing and a
/// repeated record is counted again.
pub proof fn law_transcript_split(a: Seq<JsonValue>, b: Seq<JsonValue>)
    requires
        fold_fits(empty_totals(), a + b),
    ensures
        transcript_fold(empty_totals(), a + b).input_tokens
            == transcript_fold(empty_totals(), a).input_tokens + transcript_fold(empty_totals(), b).input_tokens,
        transcript_fold(empty_totals(), a + b).output_tokens
            == transcript_fold(empty_totals(), a).output_tokens + transcript_fold(empty_totals(), b).output_tokens,
        transcript_fold(empty_totals(), a + b).cached_tokens
            == transcript_fold(empty_totals(), a).cached_tokens + transcript_fold(empty_totals(), b).cached_tokens,
{
    law_usage_sums_additive(a, b);
    lemma_usage_sums_nonneg(a);
    lemma_usage_sums_nonneg(b);
    law_fold_adds_sums(empty_totals(), a + b);
    law_fold_adds_sums(empty_totals(), a);
    law_fold_adds_sums(empty_totals(), b);
}

/// The cached-plus-input-plus-output sum of a transcript fits in `u64`.
pub open spec fn transcript_total_fits(t: TranscriptTokens) -> bool {
    t.input_tokens + t.output_tokens + t.cached_tokens <= u64::MAX
}

/// The counts shown on the status line.
/// - input: the context window's total input count, else the transcript's;
/// - output: the context window's total output count, else the transcript's;
/// - cached: the transcript's only;
/// - total: the transcript's only (its input + output + cached).
/// A count with no source is 0.
pub open spec fn token_metrics_spec(ctx: ContextWindow, transcript: Option<TranscriptTokens>) -> TokenMetrics {
    TokenMetrics {
        input_tokens: match ctx.total_input_tokens {
            Some(n) => n,
            None => match transcript { Some(t) => t.input_tokens, None => 0 },
        },
        output_tokens: match ctx.total_output_tokens {
            Some(n) => n,
            None => match transcript { Some(t) => t.output_tokens, None => 0 },
        },
        cached_tokens: match transcript { Some(t) => t.cached_tokens, None => 0 },
        total_tokens: match transcript {
            Some(t) => (t.input_tokens + t.output_tokens + t.cached_tokens) as u64,
            None => 0,
        },
    }
}

/// The counts of `token_metrics_spec`.
pub fn compute_token_metrics(ctx: &ContextWindow, transcript: Option<&TranscriptTokens>) -> (res: TokenMetrics)
    requires
        transcript matches Some(t) ==> transcript_total_fits(*t),
    ensures
        res == token_metrics_spec(*ctx, match transcript { Some(t) => Some(*t), None => None }),
        transcript matches Some(t) ==> res.total_tokens == t.input_tokens + t.output_tokens + t.cached_tokens,
{
    let input_tokens = match ctx.total_input_tokens {
        Some(n) => n,
        None => match transcript { Some(t) => t.input_tokens, None => 0 },
    };
    let output_tokens = match ctx.total_output_tokens {
        Some(n) => n,
        None => match transcript { Some(t) => t.output_tokens, None => 0 },
    };
    let cached_tokens = match transcript { Some(t) => t.cached_tokens, None => 0 };
    let total_tokens = match transcript {
        Some(t) => t.input_tokens + t.output_tokens + t.cached_tokens,
        None => 0,
    };
    TokenMetrics { input_tokens, output_tokens, cached_tokens, total_tokens }
}

/// The total count comes from the transcript only: any two context windows
/// give the same total, and without a transcript it is 0.
pub proof fn law_total_ignores_context_window(
    ctx1: ContextWindow,
    ctx2: ContextWindow,
    transcript: Option<TranscriptTokens>,
)
    ensures
        token_metrics_spec(ctx1, transcript).total_tokens == token_metrics_spec(ctx2, transcript).total_tokens,
        transcript is None ==> token_metrics_spec(ctx1, transcript).total_tokens == 0,
{
}

/// Adding a record with a `message.usage` object adds, to each total, the
/// unsigned counts read from that object: `input_tokens` to the input,
/// `output_tokens` to the output, and both `cache_read_input_tokens` and
/// `cache_creation_input_tokens` to the cached total (a count that is absent
/// or not an unsigned integer reads as 0). A record without usage adds
/// nothing.
pub proof fn law_absorb_adds_usage_counts(t: TranscriptTokens, r: JsonValue)
    requires
        absorb_fits(t, r),
    ensures
        ({
            let usage = json_get_opt(json_get(r, "message"@), "usage"@);
            let count = |key: Seq<char>| json_u64_or_zero(json_get_opt(usage, key)) as int;
            let next = transcript_step(t, r);
            &&& usage is None ==> next == t
            &&& usage is Some ==> {
                &&& next.input_tokens == t.input_tokens + count("input_tokens"@)
                &&& next.output_tokens == t.output_tokens + count("output_tokens"@)
                &&& next.cached_tokens == t.cached_tokens + count("cache_read_input_tokens"@)
                    + count("cache_creation_input_tokens"@)
            }
        }),
{
}

/// Each count shown is chosen by its source: input and output are the
/// context window's when it has them, whatever the transcript, and the
/// transcript's otherwise (0 without one); cached is the transcript's (0
/// without one); the total is the transcript's input + output + cached.
pub proof fn law_metrics_sources(ctx: ContextWindow, transcript: Option<TranscriptTokens>)
    requires
        transcript matches Some(t) ==> transcript_total_fits(t),
    ensures
        ({
            let m = token_metrics_spec(ctx, transcript);
            &&& ctx.total_input_tokens matches Some(n) ==> m.input_tokens == n
            &&& ctx.total_output_tokens matches Some(n) ==> m.output_tokens == n
            &&& transcript matches Some(t) ==> (ctx.total_input_tokens is None ==> m.input_tokens == t.input_tokens)
            &&& transcript matches Some(t) ==> (ctx.total_output_tokens is None ==> m.output_tokens == t.output_tokens)
            &&& (ctx.total_input_tokens is None && transcript is None) ==> m.input_tokens == 0
            &&& (ctx.total_output_tokens is None && transcript is None) ==> m.output_tokens == 0
            &&& transcript matches Some(t) ==> m.cached_tokens == t.cached_tokens
                && m.total_tokens == t.input_tokens + t.output_tokens + t.cached_tokens
            &&& transcript is None ==> m.cached_tokens == 0 && m.total_tokens == 0
        }),
{
}

} // verus!
