//! Byte-level string primitives: equality, substring search, prefix tests,
//! decimal rendering and decimal parsing of unsigned integers.
use vstd::prelude::*;
use vstd::string::StringSliceAdditionalSpecFns;

verus! {

broadcast use vstd::utf8::encode_utf8_decode_utf8;

// ---------------------------------------------------------------------------
// Specifications
// ---------------------------------------------------------------------------

/// The UTF-8 bytes of a string slice.
pub open spec fn bytes_of(s: &str) -> Seq<u8> {
    s.spec_bytes()
}

/// `needle` occurs in `hay` at byte offset `i`.
pub open spec fn occurs_at(hay: Seq<u8>, needle: Seq<u8>, i: int) -> bool {
    0 <= i && i + needle.len() <= hay.len() && hay.subrange(i, i + needle.len()) == needle
}

/// `needle` occurs somewhere in `hay`, byte for byte.
pub open spec fn bytes_contain(hay: Seq<u8>, needle: Seq<u8>) -> bool {
    exists|i: int| occurs_at(hay, needle, i)
}

/// `prefix` is an initial segment of `s`, byte for byte.
pub open spec fn bytes_start_with(s: Seq<u8>, prefix: Seq<u8>) -> bool {
    occurs_at(s, prefix, 0)
}

/// The character of a decimal digit `d` (`0 <= d < 10`).
pub open spec fn digit_char(d: nat) -> char {
    if d == 0 { '0' }
    else if d == 1 { '1' }
    else if d == 2 { '2' }
    else if d == 3 { '3' }
    else if d == 4 { '4' }
    else if d == 5 { '5' }
    else if d == 6 { '6' }
    else if d == 7 { '7' }
    else if d == 8 { '8' }
    else { '9' }
}

/// The shortest decimal rendering of `n`, most significant digit first.
pub open spec fn decimal(n: nat) -> Seq<char>
    decreases n,
{
    if n < 10 {
        seq![digit_char(n)]
    } else {
        decimal(n / 10).push(digit_char(n % 10))
    }
}

/// `b` is the ASCII code of a decimal digit.
pub open spec fn is_digit_byte(b: u8) -> bool {
    48 <= b <= 57
}

/// Every byte of `b` is an ASCII decimal digit.
pub open spec fn all_digit_bytes(b: Seq<u8>) -> bool {
    forall|i: int| 0 <= i < b.len() ==> is_digit_byte(#[trigger] b[i])
}

/// The number written by the ASCII digits `b`, most significant first
/// (0 for the empty sequence).
pub open spec fn digits_value(b: Seq<u8>) -> nat
    decreases b.len(),
{
    if b.len() == 0 {
        0
    } else {
        digits_value(b.drop_last()) * 10 + (b.last() - 48) as nat
    }
}

/// The digits that follow an optional leading `+`.
pub open spec fn unsigned_body(b: Seq<u8>) -> Seq<u8> {
    if b.len() > 0 && b[0] == 43 {
        b.skip(1)
    } else {
        b
    }
}

/// What parsing `b` as a `u64` gives: an optional `+` followed by at least
/// one ASCII digit, whose value fits in 64 bits; anything else is rejected.
pub open spec fn parse_u64_spec(b: Seq<u8>) -> Option<u64> {
    let d = unsigned_body(b);
    if d.len() > 0 && all_digit_bytes(d) && digits_value(d) <= u64::MAX {
        Some(digits_value(d) as u64)
    } else {
        None
    }
}

// ---------------------------------------------------------------------------
// Trusted primitive
// ---------------------------------------------------------------------------

/// Calls `String::push`, which appends one character to the end of the
/// string; the contract says exactly that.
#[verifier::external_body]
pub(crate) fn push_char(s: &mut String, ch: char)
    ensures
        final(s)@ == old(s)@.push(ch),
{
    s.push(ch);
}

// ---------------------------------------------------------------------------
// Comparison and search
// ---------------------------------------------------------------------------

/// Two byte slices hold the same bytes.
pub fn bytes_equal(a: &[u8], b: &[u8]) -> (res: bool)
    ensures
        res == (a@ == b@),
{
    if a.len() != b.len() {
        return false;
    }
    let n = a.len();
    let mut i: usize = 0;
    while i < n
        invariant
            n == a@.len(),
            n == b@.len(),
            i <= n,
            forall|j: int| 0 <= j < i ==> a@[j] == b@[j],
        decreases n - i,
    {
        if a[i] != b[i] {
            return false;
        }
        i = i + 1;
    }
    assert(a@ =~= b@);
    true
}

/// Two string slices hold the same characters.
pub fn str_equal(a: &str, b: &str) -> (res: bool)
    ensures
        res == (a@ == b@),
{
    let r = bytes_equal(a.as_bytes(), b.as_bytes());
    proof {
        if r {
            assert(vstd::utf8::decode_utf8(vstd::utf8::encode_utf8(a@)) == a@);
            assert(vstd::utf8::decode_utf8(vstd::utf8::encode_utf8(b@)) == b@);
        }
    }
    r
}

/// `needle` occurs in `hay` at offset `i`.
fn bytes_match_at(hay: &[u8], needle: &[u8], i: usize) -> (res: bool)
    ensures
        res == occurs_at(hay@, needle@, i as int),
{
    if i > hay.len() || needle.len() > hay.len() - i {
        return false;
    }
    let n = needle.len();
    let mut j: usize = 0;
    while j < n
        invariant
            n == needle@.len(),
            i + n <= hay@.len(),
            hay@.len() == hay.len(),
            j <= n,
            forall|k: int| 0 <= k < j ==> hay@[i + k] == needle@[k],
        decreases n - j,
    {
        if hay[i + j] != needle[j] {
            assert(hay@.subrange(i as int, i + n)[j as int] != needle@[j as int]);
            return false;
        }
        j = j + 1;
    }
    assert(hay@.subrange(i as int, i + n) =~= needle@);
    true
}

/// `needle` occurs somewhere in `hay`.
pub fn bytes_find(hay: &[u8], needle: &[u8]) -> (res: bool)
    ensures
        res == bytes_contain(hay@, needle@),
{
    if needle.len() > hay.len() {
        return false;
    }
    let last = hay.len() - needle.len();
    let mut i: usize = 0;
    loop
        invariant
            last == hay@.len() - needle@.len(),
            i <= last,
            forall|k: int| 0 <= k < i ==> !occurs_at(hay@, needle@, k),
        decreases last - i,
    {
        if bytes_match_at(hay, needle, i) {
            return true;
        }
        if i == last {
            assert forall|k: int| !occurs_at(hay@, needle@, k) by {
                if 0 <= k <= last {
                    assert(k < i || k == i);
                }
            }
            return false;
        }
        i = i + 1;
    }
}

/// `needle` occurs in `hay` (byte-wise substring search, as `str::contains`).
pub fn str_contains(hay: &str, needle: &str) -> (res: bool)
    ensures
        res == bytes_contain(bytes_of(hay), bytes_of(needle)),
{
    bytes_find(hay.as_bytes(), needle.as_bytes())
}

/// `s` begins with `prefix` (byte-wise, as `str::starts_with`).
pub fn str_starts_with(s: &str, prefix: &str) -> (res: bool)
    ensures
        res == bytes_start_with(bytes_of(s), bytes_of(prefix)),
{
    bytes_match_at(s.as_bytes(), prefix.as_bytes(), 0)
}

// ---------------------------------------------------------------------------
// Decimal rendering
// ---------------------------------------------------------------------------

/// The character of the digit `d`.
fn digit_to_char(d: u64) -> (ch: char)
    requires
        d < 10,
    ensures
        ch == digit_char(d as nat),
{
    if d == 0 { '0' }
    else if d == 1 { '1' }
    else if d == 2 { '2' }
    else if d == 3 { '3' }
    else if d == 4 { '4' }
    else if d == 5 { '5' }
    else if d == 6 { '6' }
    else if d == 7 { '7' }
    else if d == 8 { '8' }
    else { '9' }
}

/// The number that a string of decimal digit characters writes, most
/// significant first.
pub open spec fn digit_chars_value(s: Seq<char>) -> int
    decreases s.len(),
{
    if s.len() == 0 {
        0
    } else {
        digit_chars_value(s.drop_last()) * 10 + (s.last() as int - 48)
    }
}

/// The decimal rendering of `n` is a non-empty string of the characters
/// `0` to `9`, without a leading zero unless `n` is 0, that reads back as `n`.
pub proof fn law_decimal_reads_back(n: nat)
    ensures
        decimal(n).len() > 0,
        forall|i: int| 0 <= i < decimal(n).len() ==> '0' <= #[trigger] decimal(n)[i] <= '9',
        n > 0 ==> decimal(n)[0] != '0',
        n == 0 ==> decimal(n) == seq!['0'],
        digit_chars_value(decimal(n)) == n,
    decreases n,
{
    let d = (n % 10) as nat;
    assert(digit_char(d) as int - 48 == d) by {
        assert('0' as int == 48 && '1' as int == 49 && '2' as int == 50 && '3' as int == 51
            && '4' as int == 52 && '5' as int == 53 && '6' as int == 54 && '7' as int == 55
            && '8' as int == 56 && '9' as int == 57);
    }
    if n >= 10 {
        law_decimal_reads_back(n / 10);
        let init = decimal(n / 10);
        assert(decimal(n).drop_last() =~= init);
        assert forall|i: int| 0 <= i < decimal(n).len() implies '0' <= #[trigger] decimal(n)[i] <= '9' by {
            if i < init.len() {
                assert(decimal(n)[i] == init[i]);
            }
        }
        assert(decimal(n)[0] == init[0]);
        assert(decimal(n).last() == digit_char(d));
        assert(n == (n / 10) * 10 + d);
        assert(digit_chars_value(decimal(n))
            == digit_chars_value(init) * 10 + (digit_char(d) as int - 48));
    } else {
        assert(decimal(n).drop_last() =~= Seq::<char>::empty());
        assert(decimal(n).last() == digit_char(d));
        assert(digit_chars_value(decimal(n))
            == digit_chars_value(Seq::<char>::empty()) * 10 + (digit_char(d) as int - 48));
        assert(n == d);
    }
}

/// Appends the decimal rendering of `n` to `s`.
pub fn push_decimal(s: &mut String, n: u64)
    ensures
        final(s)@ == old(s)@ + decimal(n as nat),
    decreases n,
{
    if n >= 10 {
        push_decimal(s, n / 10);
    }
    push_char(s, digit_to_char(n % 10));
    proof {
        if n >= 10 {
            assert(decimal(n as nat) == decimal((n / 10) as nat).push(digit_char((n % 10) as nat)));
        }
    }
    assert(final(s)@ =~= old(s)@ + decimal(n as nat));
}

/// The decimal rendering of `n` (as `u64::to_string`).
pub fn decimal_string(n: u64) -> (res: String)
    ensures
        res@ == decimal(n as nat),
{
    let mut s = String::new();
    push_decimal(&mut s, n);
    assert(s@ =~= decimal(n as nat));
    s
}

// ---------------------------------------------------------------------------
// Decimal parsing
// ---------------------------------------------------------------------------

/// Parses `b[start..end]` as a `u64`, with the rules of `u64::from_str`.
pub fn parse_u64_range(b: &[u8], start: usize, end: usize) -> (res: Option<u64>)
    requires
        start <= end <= b@.len(),
    ensures
        res == parse_u64_spec(b@.subrange(start as int, end as int)),
{
    let ghost whole = b@.subrange(start as int, end as int);
    let mut i = start;
    if i < end && b[i] == 43u8 {
        i = i + 1;
    }
    let ghost body = b@.subrange(i as int, end as int);
    assert(body =~= unsigned_body(whole));
    if i == end {
        return None;
    }
    let mut acc: u64 = 0;
    let mut overflow = false;
    let mut k = i;
    while k < end
        invariant
            start <= i <= k <= end <= b@.len(),
            body == b@.subrange(i as int, end as int),
            body == unsigned_body(whole),
            whole == b@.subrange(start as int, end as int),
            i < end,
            all_digit_bytes(b@.subrange(i as int, k as int)),
            !overflow ==> acc == digits_value(b@.subrange(i as int, k as int)),
            overflow ==> digits_value(b@.subrange(i as int, k as int)) > u64::MAX,
        decreases end - k,
    {
        let d = b[k];
        if d < 48u8 || d > 57u8 {
            assert(body[k - i] == d);
            return None;
        }
        let ghost prev = b@.subrange(i as int, k as int);
        let ghost next = b@.subrange(i as int, k + 1);
        assert(next.drop_last() =~= prev);
        assert(next.last() == d);
        assert(all_digit_bytes(next));
        if !overflow {
            match acc.checked_mul(10) {
                Some(t) => match t.checked_add((d - 48u8) as u64) {
                    Some(v) => {
                        acc = v;
                    },
                    None => {
                        overflow = true;
                    },
                },
                None => {
                    overflow = true;
                },
            }
        } else {
            assert(digits_value(next) >= digits_value(prev) * 10);
        }
        k = k + 1;
    }
    assert(b@.subrange(i as int, end as int) =~= body);
    if overflow {
        None
    } else {
        Some(acc)
    }
}

/// Parses `s` as a `u64`, with the rules of `u64::from_str`.
pub fn parse_u64(s: &str) -> (res: Option<u64>)
    ensures
        res == parse_u64_spec(bytes_of(s)),
{
    let b = s.as_bytes();
    let r = parse_u64_range(b, 0, b.len());
    assert(b@.subrange(0, b@.len() as int) =~= b@);
    r
}

// ---------------------------------------------------------------------------
// Whitespace
// ---------------------------------------------------------------------------

/// `ch` has the Unicode `White_Space` property (the characters listed for it
/// in the Unicode Character Database, as `char::is_whitespace` tests).
pub open spec fn is_white_space(ch: char) -> bool {
    ||| ('\u{9}' <= ch && ch <= '\u{d}')
    ||| ch == ' '
    ||| ch == '\u{85}'
    ||| ch == '\u{a0}'
    ||| ch == '\u{1680}'
    ||| ('\u{2000}' <= ch && ch <= '\u{200a}')
    ||| ch == '\u{2028}'
    ||| ch == '\u{2029}'
    ||| ch == '\u{202f}'
    ||| ch == '\u{205f}'
    ||| ch == '\u{3000}'
}

/// `s` without its leading whitespace.
pub open spec fn trim_start_spec(s: Seq<char>) -> Seq<char>
    decreases s.len(),
{
    if s.len() > 0 && is_white_space(s[0]) {
        trim_start_spec(s.skip(1))
    } else {
        s
    }
}

/// `s` without its trailing whitespace.
pub open spec fn trim_end_spec(s: Seq<char>) -> Seq<char>
    decreases s.len(),
{
    if s.len() > 0 && is_white_space(s.last()) {
        trim_end_spec(s.drop_last())
    } else {
        s
    }
}

/// `s` without leading and trailing whitespace (as `str::trim`).
pub open spec fn trim_spec(s: Seq<char>) -> Seq<char> {
    trim_end_spec(trim_start_spec(s))
}

/// Reading `s` from the left: the words completed so far and the word in
/// progress. A whitespace character ends the word in progress, when there
/// is one; any other character extends it.
pub open spec fn words_state(s: Seq<char>) -> (Seq<Seq<char>>, Seq<char>)
    decreases s.len(),
{
    if s.len() == 0 {
        (Seq::empty(), Seq::empty())
    } else {
        let (done, cur) = words_state(s.drop_last());
        let ch = s.last();
        if is_white_space(ch) {
            if cur.len() > 0 { (done.push(cur), Seq::empty()) } else { (done, cur) }
        } else {
            (done, cur.push(ch))
        }
    }
}

/// The maximal runs of non-whitespace characters of `s`, in order (as
/// `str::split_whitespace`).
pub open spec fn split_whitespace_spec(s: Seq<char>) -> Seq<Seq<char>> {
    let (done, cur) = words_state(s);
    if cur.len() > 0 { done.push(cur) } else { done }
}

proof fn lemma_trim_start_cut(s: Seq<char>) -> (i: int)
    ensures
        0 <= i <= s.len(),
        trim_start_spec(s) == s.skip(i),
        forall|k: int| 0 <= k < i ==> is_white_space(#[trigger] s[k]),
        i < s.len() ==> !is_white_space(s[i]),
    decreases s.len(),
{
    if s.len() > 0 && is_white_space(s[0]) {
        let j = lemma_trim_start_cut(s.skip(1));
        assert(s.skip(1).skip(j) =~= s.skip(j + 1));
        assert forall|k: int| 0 <= k < j + 1 implies is_white_space(#[trigger] s[k]) by {
            if k > 0 {
                assert(s[k] == s.skip(1)[k - 1]);
            }
        }
        j + 1
    } else {
        assert(s.skip(0) =~= s);
        0
    }
}

proof fn lemma_trim_end_cut(s: Seq<char>) -> (j: int)
    ensures
        0 <= j <= s.len(),
        trim_end_spec(s) == s.take(j),
        forall|k: int| j <= k < s.len() ==> is_white_space(#[trigger] s[k]),
        j > 0 ==> !is_white_space(s[j - 1]),
    decreases s.len(),
{
    if s.len() > 0 && is_white_space(s.last()) {
        let j = lemma_trim_end_cut(s.drop_last());
        assert(s.drop_last().take(j) =~= s.take(j));
        assert forall|k: int| j <= k < s.len() implies is_white_space(#[trigger] s[k]) by {
            if k < s.len() - 1 {
                assert(s[k] == s.drop_last()[k]);
            }
        }
        j
    } else {
        assert(s.take(s.len() as int) =~= s);
        s.len() as int
    }
}

/// Trimming keeps a contiguous piece of the string: everything before and
/// after it is whitespace, and the piece is empty or begins and ends with a
/// character that is not whitespace.
pub proof fn law_trim_keeps_inner_piece(s: Seq<char>)
    ensures
        exists|i: int, j: int| {
            &&& 0 <= i <= j <= s.len()
            &&& trim_spec(s) == s.subrange(i, j)
            &&& forall|k: int| 0 <= k < i ==> is_white_space(#[trigger] s[k])
            &&& forall|k: int| j <= k < s.len() ==> is_white_space(#[trigger] s[k])
            &&& i < j ==> !is_white_space(s[i]) && !is_white_space(s[j - 1])
        },
{
    let i = lemma_trim_start_cut(s);
    let t = s.skip(i);
    let m = lemma_trim_end_cut(t);
    let j = i + m;
    assert(t.take(m) =~= s.subrange(i, j));
    assert forall|k: int| j <= k < s.len() implies is_white_space(#[trigger] s[k]) by {
        assert(s[k] == t[k - i]);
    }
    if i < j {
        assert(s[i] == t[0]);
        assert(s[j - 1] == t[m - 1]);
        if m == t.len() {
        }
    }
    assert({
        &&& 0 <= i <= j <= s.len()
        &&& trim_spec(s) == s.subrange(i, j)
        &&& forall|k: int| 0 <= k < i ==> is_white_space(#[trigger] s[k])
        &&& forall|k: int| j <= k < s.len() ==> is_white_space(#[trigger] s[k])
        &&& i < j ==> !is_white_space(s[i]) && !is_white_space(s[j - 1])
    });
}

/// The predicate "is not whitespace".
pub open spec fn not_white_space() -> spec_fn(char) -> bool {
    |ch: char| !is_white_space(ch)
}

/// No character of `w` is whitespace.
pub open spec fn has_no_white_space(w: Seq<char>) -> bool {
    forall|k: int| 0 <= k < w.len() ==> !is_white_space(#[trigger] w[k])
}

proof fn lemma_words_state(s: Seq<char>)
    ensures
        ({
            let (done, cur) = words_state(s);
            &&& forall|i: int| 0 <= i < done.len() ==> (#[trigger] done[i]).len() > 0 && has_no_white_space(done[i])
            &&& has_no_white_space(cur)
            &&& done.flatten() + cur == s.filter(not_white_space())
        }),
    decreases s.len(),
{
    if s.len() == 0 {
        reveal(Seq::filter);
        assert(Seq::<Seq<char>>::empty().flatten() =~= Seq::<char>::empty());
        assert(Seq::<char>::empty().filter(not_white_space()) =~= Seq::<char>::empty());
    } else {
        let init = s.drop_last();
        let ch = s.last();
        lemma_words_state(init);
        let (done, cur) = words_state(init);
        init.lemma_filter_push(ch, not_white_space());
        assert(init.push(ch) =~= s);
        if is_white_space(ch) {
            if cur.len() > 0 {
                done.lemma_flatten_push(cur);
                assert(done.push(cur).flatten() + Seq::<char>::empty() =~= done.flatten() + cur);
            }
        } else {
            assert(done.flatten() + cur.push(ch) =~= (done.flatten() + cur).push(ch));
            assert forall|k: int| 0 <= k < cur.push(ch).len() implies !is_white_space(#[trigger] cur.push(ch)[k]) by {
                if k < cur.len() {
                    assert(cur.push(ch)[k] == cur[k]);
                }
            }
        }
    }
}

/// The words of a string are non-empty and hold no whitespace, and put end
/// to end they are exactly the string's non-whitespace characters, in order.
pub proof fn law_split_words_cover_non_whitespace(s: Seq<char>)
    ensures
        forall|i: int| 0 <= i < split_whitespace_spec(s).len() ==>
            (#[trigger] split_whitespace_spec(s)[i]).len() > 0
            && has_no_white_space(split_whitespace_spec(s)[i]),
        split_whitespace_spec(s).flatten() == s.filter(not_white_space()),
{
    lemma_words_state(s);
    let (done, cur) = words_state(s);
    if cur.len() > 0 {
        done.lemma_flatten_push(cur);
    } else {
        assert(done.flatten() + cur =~= done.flatten());
    }
}

/// `ch` is a whitespace character.
pub fn is_whitespace_char(ch: char) -> (res: bool)
    ensures
        res == is_white_space(ch),
{
    ('\u{9}' <= ch && ch <= '\u{d}')
        || ch == ' '
        || ch == '\u{85}'
        || ch == '\u{a0}'
        || ch == '\u{1680}'
        || ('\u{2000}' <= ch && ch <= '\u{200a}')
        || ch == '\u{2028}'
        || ch == '\u{2029}'
        || ch == '\u{202f}'
        || ch == '\u{205f}'
        || ch == '\u{3000}'
}

/// `s` without leading and trailing whitespace.
pub fn trim_whitespace(s: &str) -> (res: String)
    ensures
        res@ == trim_spec(s@),
{
    let n = s.unicode_len();
    let mut i: usize = 0;
    assert(s@.skip(0) =~= s@);
    while i < n && is_whitespace_char(s.get_char(i))
        invariant
            n == s@.len(),
            i <= n,
            trim_start_spec(s@) == trim_start_spec(s@.skip(i as int)),
        decreases n - i,
    {
        assert(s@.skip(i as int).skip(1) =~= s@.skip(i + 1));
        i = i + 1;
    }
    let ghost start = s@.skip(i as int);
    assert(trim_start_spec(start) == start) by {
        if start.len() > 0 {
            assert(start[0] == s@[i as int]);
        }
    }
    let mut j: usize = n;
    assert(start.subrange(0, (j - i) as int) =~= start);
    while j > i && is_whitespace_char(s.get_char(j - 1))
        invariant
            n == s@.len(),
            i <= j <= n,
            start == s@.skip(i as int),
            trim_end_spec(start) == trim_end_spec(start.subrange(0, (j - i) as int)),
        decreases j,
    {
        assert(start.subrange(0, (j - i) as int).drop_last() =~= start.subrange(0, (j - 1 - i) as int));
        assert(start.subrange(0, (j - i) as int).last() == s@[j - 1]);
        j = j - 1;
    }
    let ghost kept = start.subrange(0, (j - i) as int);
    assert(trim_end_spec(kept) == kept) by {
        if kept.len() > 0 {
            assert(kept.last() == s@[j - 1]);
        }
    }
    assert(kept =~= s@.subrange(i as int, j as int));
    let mut res = String::new();
    res.append(s.substring_char(i, j));
    assert(res@ =~= trim_spec(s@));
    res
}

/// The words of `s`: its maximal runs of non-whitespace characters, in
/// order.
pub fn split_whitespace_words(s: &str) -> (res: Vec<String>)
    ensures
        res@.map_values(|w: String| w@) == split_whitespace_spec(s@),
{
    let n = s.unicode_len();
    let mut done: Vec<String> = Vec::new();
    let mut cur = String::new();
    let mut i: usize = 0;
    while i < n
        invariant
            n == s@.len(),
            i <= n,
            words_state(s@.take(i as int)) == (done@.map_values(|w: String| w@), cur@),
        decreases n - i,
    {
        let ch = s.get_char(i);
        let ghost prev_done = done@.map_values(|w: String| w@);
        assert(s@.take(i + 1).drop_last() =~= s@.take(i as int));
        assert(s@.take(i + 1).last() == ch);
        if is_whitespace_char(ch) {
            if cur.unicode_len() > 0 {
                let word = cur;
                cur = String::new();
                let ghost w = word@;
                done.push(word);
                assert(done@.map_values(|w: String| w@) =~= prev_done.push(w));
            }
        } else {
            push_char(&mut cur, ch);
        }
        i = i + 1;
    }
    assert(s@.take(n as int) =~= s@);
    if cur.unicode_len() > 0 {
        let ghost prev_done = done@.map_values(|w: String| w@);
        let ghost w = cur@;
        done.push(cur);
        assert(done@.map_values(|w: String| w@) =~= prev_done.push(w));
    }
    done
}

} // verus!
