//! Formatting of counts and durations for the status line.
use vstd::prelude::*;
use crate::text::{decimal, push_char, push_decimal, decimal_string};

verus! {

/// The unit in which a token count is shown.
pub enum TokenMagnitude {
    /// One decimal of millions, suffixed `M` (from 1,000,000 on).
    Millions,
    /// One decimal of thousands, suffixed `k` (from 1,000 on).
    Thousands,
    /// The plain count (below 1,000).
    Units,
}

/// The unit of `n`: millions from 1,000,000 on, thousands from 1,000 on, the
/// plain count below.
pub fn token_magnitude(n: u64) -> (res: TokenMagnitude)
    ensures
        n >= 1_000_000 ==> res is Millions,
        1_000 <= n < 1_000_000 ==> res is Thousands,
        n < 1_000 ==> res is Units,
{
    if n >= 1_000_000 {
        TokenMagnitude::Millions
    } else if n >= 1_000 {
        TokenMagnitude::Thousands
    } else {
        TokenMagnitude::Units
    }
}

/// The digits `d` with a comma before each group of three, counted from the
/// right.
pub open spec fn group_thousands(d: Seq<char>) -> Seq<char>
    decreases d.len(),
{
    if d.len() <= 3 {
        d
    } else {
        group_thousands(d.take(d.len() - 3)).push(',') + d.skip(d.len() - 3)
    }
}

/// The predicate "is not a comma".
pub open spec fn not_comma() -> spec_fn(char) -> bool {
    |ch: char| ch != ','
}

proof fn lemma_filter_keeps_all(d: Seq<char>)
    requires
        !d.contains(','),
    ensures
        d.filter(not_comma()) == d,
    decreases d.len(),
{
    if d.len() > 0 {
        let init = d.drop_last();
        assert(!init.contains(',')) by {
            assert forall|i: int| 0 <= i < init.len() implies init[i] != ',' by {
                assert(init[i] == d[i]);
            }
        }
        lemma_filter_keeps_all(init);
        init.lemma_filter_push(d.last(), not_comma());
        assert(init.push(d.last()) =~= d);
    } else {
        reveal(Seq::filter);
    }
}

/// Grouping keeps the digits: removing the commas from the grouped form of a
/// comma-free sequence gives the sequence back.
pub proof fn law_grouping_keeps_digits(d: Seq<char>)
    requires
        !d.contains(','),
    ensures
        group_thousands(d).filter(not_comma()) == d,
    decreases d.len(),
{
    if d.len() <= 3 {
        lemma_filter_keeps_all(d);
    } else {
        let head = d.take(d.len() - 3);
        let tail = d.skip(d.len() - 3);
        assert(!head.contains(',')) by {
            assert forall|i: int| 0 <= i < head.len() implies head[i] != ',' by {
                assert(head[i] == d[i]);
            }
        }
        assert(!tail.contains(',')) by {
            assert forall|i: int| 0 <= i < tail.len() implies tail[i] != ',' by {
                assert(tail[i] == d[i + d.len() - 3]);
            }
        }
        law_grouping_keeps_digits(head);
        lemma_filter_keeps_all(tail);
        let g = group_thousands(head);
        g.lemma_filter_push(',', not_comma());
        Seq::filter_distributes_over_add(g.push(','), tail, not_comma());
        assert(head + tail =~= d);
    }
}

/// Decimal renderings hold no comma.
proof fn lemma_decimal_has_no_comma(n: nat)
    ensures
        !decimal(n).contains(','),
    decreases n,
{
    if n >= 10 {
        lemma_decimal_has_no_comma(n / 10);
        let init = decimal(n / 10);
        assert forall|i: int| 0 <= i < decimal(n).len() implies decimal(n)[i] != ',' by {
            if i < init.len() {
                assert(decimal(n)[i] == init[i]);
            }
        }
    }
}

/// Removing the commas from `format_tokens_comma(n)` gives the decimal
/// digits of `n`.
pub proof fn law_comma_format_keeps_digits(n: u64)
    ensures
        group_thousands(decimal(n as nat)).filter(not_comma()) == decimal(n as nat),
{
    lemma_decimal_has_no_comma(n as nat);
    law_grouping_keeps_digits(decimal(n as nat));
}

/// Appends the first `len` characters of `d`, grouped by `group_thousands`.
fn push_grouped(out: &mut String, d: &str, len: usize)
    requires
        len <= d@.len(),
    ensures
        final(out)@ == old(out)@ + group_thousands(d@.take(len as int)),
    decreases len,
{
    let ghost prefix = d@.take(len as int);
    let start: usize = if len <= 3 { 0 } else { len - 3 };
    if len > 3 {
        push_grouped(out, d, len - 3);
        push_char(out, ',');
        assert(prefix.take(prefix.len() - 3) =~= d@.take(len - 3));
    }
    let ghost mid = out@;
    let mut i = start;
    while i < len
        invariant
            start <= i <= len <= d@.len(),
            out@ == mid + d@.subrange(start as int, i as int),
        decreases len - i,
    {
        push_char(out, d.get_char(i));
        assert(d@.subrange(start as int, i + 1) =~= d@.subrange(start as int, i as int).push(d@[i as int]));
        i = i + 1;
    }
    assert(prefix.skip(start as int) =~= d@.subrange(start as int, len as int));
    if len <= 3 {
        assert(prefix =~= d@.subrange(0, len as int));
    }
    assert(final(out)@ =~= old(out)@ + group_thousands(prefix));
}

/// `n` in decimal with thousands separated by commas, e.g. `1,234,567`.
pub fn format_tokens_comma(n: u64) -> (res: String)
    ensures
        res@ == group_thousands(decimal(n as nat)),
{
    let digits = decimal_string(n);
    let mut res = String::new();
    let d = digits.as_str();
    let len = d.unicode_len();
    push_grouped(&mut res, d, len);
    assert(d@.take(len as int) =~= d@);
    assert(res@ =~= group_thousands(decimal(n as nat)));
    res
}

/// How a remaining duration in minutes is shown: `expired` when not
/// positive, `{h}h {m}m left` from one hour on, `{m}m left` below.
pub open spec fn remaining_text(minutes: i64) -> Seq<char> {
    if minutes <= 0 {
        "expired"@
    } else if minutes / 60 > 0 {
        decimal((minutes / 60) as nat) + "h "@ + decimal((minutes % 60) as nat) + "m left"@
    } else {
        decimal((minutes % 60) as nat) + "m left"@
    }
}

/// The remaining time of a billing block, e.g. `2h 5m left`.
pub fn format_remaining(minutes: i64) -> (res: String)
    ensures
        res@ == remaining_text(minutes),
{
    let mut res = String::new();
    if minutes <= 0 {
        res.append("expired");
        return res;
    }
    let h = minutes / 60;
    let m = minutes % 60;
    if h > 0 {
        push_decimal(&mut res, h as u64);
        res.append("h ");
    }
    push_decimal(&mut res, m as u64);
    res.append("m left");
    res
}

/// The non-breaking space that stands in for a space in a shown line.
pub const NBSP: char = '\u{00A0}';

/// `line` with every space replaced by a non-breaking space, so that the
/// terminal does not trim it.
pub fn protect_spaces(line: &str) -> (res: String)
    ensures
        res@ == line@.map_values(|ch: char| if ch == ' ' { NBSP } else { ch }),
{
    let n = line.unicode_len();
    let mut res = String::new();
    let mut i: usize = 0;
    while i < n
        invariant
            n == line@.len(),
            i <= n,
            res@ == line@.take(i as int).map_values(|ch: char| if ch == ' ' { NBSP } else { ch }),
        decreases n - i,
    {
        let ch = line.get_char(i);
        if ch == ' ' {
            push_char(&mut res, NBSP);
        } else {
            push_char(&mut res, ch);
        }
        assert(line@.take(i + 1) =~= line@.take(i as int).push(ch));
        i = i + 1;
    }
    assert(line@.take(n as int) =~= line@);
    res
}

} // verus!
