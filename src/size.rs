//! Canvas-size negotiation: the request, and the parse of the server's reply.

use crate::dispatch::Canvas;
use vstd::prelude::*;

verus! {

/// ASCII whitespace: space, tab, line feed, vertical tab, form feed, carriage return.
pub open spec fn is_ws(c: u8) -> bool {
    c == 32 || (9 <= c && c <= 13)
}

/// Start and end (exclusive) of each whitespace-separated token of `s`, in order.
pub open spec fn spans_of(s: Seq<u8>) -> Seq<(int, int)>
    decreases s.len(),
{
    if s.len() == 0 {
        seq![]
    } else {
        let prev = spans_of(s.drop_last());
        let n = s.len() - 1;
        if is_ws(s[n]) {
            prev
        } else if n >= 1 && !is_ws(s[n - 1]) {
            prev.update(prev.len() - 1, (prev.last().0, n + 1))
        } else {
            prev.push((n, n + 1))
        }
    }
}

/// Token `k` of `s`.
pub open spec fn token(s: Seq<u8>, k: int) -> Seq<u8> {
    s.subrange(spans_of(s)[k].0, spans_of(s)[k].1)
}

/// Non-empty and made of ASCII digits only.
pub open spec fn is_digits(t: Seq<u8>) -> bool {
    t.len() > 0 && forall|i: int| 0 <= i < t.len() ==> 48 <= #[trigger] t[i] <= 57
}

/// Value of a string of decimal digits.
pub open spec fn digits_value(t: Seq<u8>) -> nat
    decreases t.len(),
{
    if t.len() == 0 {
        0
    } else {
        digits_value(t.drop_last()) * 10 + (t.last() - 48) as nat
    }
}

/// `t` is a decimal number that fits in a `u32`.
pub open spec fn is_u32_decimal(t: Seq<u8>) -> bool {
    is_digits(t) && digits_value(t) <= u32::MAX
}

/// The canvas-size request.
pub open spec fn size_request() -> Seq<u8> {
    seq![83u8, 73u8, 90u8, 69u8, 10u8]
}

/// Whether `b` is valid UTF-8, as std decides it.
pub uninterp spec fn is_utf8(b: Seq<u8>) -> bool;

/// Relies on `std::str::from_utf8`, which returns `Ok` exactly for valid UTF-8.
#[verifier::external_body]
fn utf8_valid(b: &[u8]) -> (r: bool)
    ensures
        r == is_utf8(b@),
{
    std::str::from_utf8(b).is_ok()
}

/// Why a reply to the size request gives no canvas size.
#[derive(Clone, Copy, Debug, PartialEq, Eq, Structural)]
pub enum SizeError {
    /// The reply is not valid UTF-8 text.
    NotText,
    /// The reply has fewer than three tokens.
    TooFewTokens,
    /// The second token is not a decimal width.
    BadWidth,
    /// The third token is not a decimal height.
    BadHeight,
}

/// The bytes that ask the server for its canvas size: `SIZE` and a newline.
pub fn size_request_bytes() -> (r: Vec<u8>)
    ensures
        r@ == size_request(),
{
    let r: Vec<u8> = vec![83u8, 73u8, 90u8, 69u8, 10u8];
    assert(r@ =~= size_request());
    r
}

/// Spans of the whitespace-separated tokens of `s`.
pub fn token_spans(s: &[u8]) -> (r: Vec<(usize, usize)>)
    ensures
        r@.len() == spans_of(s@).len(),
        forall|k: int|
            0 <= k < r@.len() ==> (#[trigger] r@[k]).0 == spans_of(s@)[k].0 && r@[k].1
                == spans_of(s@)[k].1,
{
    let n = s.len();
    let mut spans: Vec<(usize, usize)> = Vec::new();
    let mut i: usize = 0;
    while i < n
        invariant
            0 <= i <= n,
            n == s@.len(),
            spans@.len() == spans_of(s@.subrange(0, i as int)).len(),
            forall|k: int|
                0 <= k < spans@.len() ==> (#[trigger] spans@[k]).0 == spans_of(
                    s@.subrange(0, i as int),
                )[k].0 && spans@[k].1 == spans_of(s@.subrange(0, i as int))[k].1,
            i > 0 && !is_ws(s@[i - 1]) ==> spans@.len() > 0 && spans@.last().1 == i,
        decreases n - i,
    {
        let ghost pre = s@.subrange(0, i as int);
        let ghost cur = s@.subrange(0, i + 1);
        assert(cur.drop_last() =~= pre);
        let c = s[i];
        let ws = c == 32 || (9 <= c && c <= 13);
        if ws {
        } else if i >= 1 && !(s[i - 1] == 32 || (9 <= s[i - 1] && s[i - 1] <= 13)) {
            let last = spans.len() - 1;
            let (start, _) = spans[last];
            spans.set(last, (start, i + 1));
        } else {
            spans.push((i, i + 1));
        }
        i = i + 1;
    }
    assert(s@.subrange(0, n as int) =~= s@);
    spans
}

/// Digits only: the value never falls as digits are appended.
proof fn lemma_value_grows(t: Seq<u8>, k: int)
    requires
        0 <= k <= t.len(),
        forall|i: int| 0 <= i < t.len() ==> 48 <= #[trigger] t[i] <= 57,
    ensures
        digits_value(t.subrange(0, k)) <= digits_value(t),
    decreases t.len(),
{
    if k < t.len() {
        assert(t.drop_last().subrange(0, k) =~= t.subrange(0, k));
        lemma_value_grows(t.drop_last(), k);
    } else {
        assert(t.subrange(0, k) =~= t);
    }
}

/// The decimal number in `s[start..end]`, or `None` when that is not a
/// non-empty string of digits or its value exceeds `u32::MAX`.
pub fn parse_decimal(s: &[u8], start: usize, end: usize) -> (r: Option<u32>)
    requires
        start <= end <= s@.len(),
    ensures
        r is Some <==> is_u32_decimal(s@.subrange(start as int, end as int)),
        r matches Some(v) ==> v == digits_value(s@.subrange(start as int, end as int)),
{
    let ghost t = s@.subrange(start as int, end as int);
    if start == end {
        return None;
    }
    let mut acc: u64 = 0;
    let mut i: usize = start;
    while i < end
        invariant
            start <= i <= end,
            end <= s@.len(),
            t == s@.subrange(start as int, end as int),
            forall|j: int| 0 <= j < i - start ==> 48 <= #[trigger] t[j] <= 57,
            acc == digits_value(t.subrange(0, i - start)),
            acc <= u32::MAX,
        decreases end - i,
    {
        let c = s[i];
        if c < 48 || c > 57 {
            assert(t[i - start] == c);
            return None;
        }
        let ghost k = i - start;
        assert(t.subrange(0, k + 1).drop_last() =~= t.subrange(0, k));
        acc = acc * 10 + (c - 48) as u64;
        if acc > 0xffff_ffff {
            proof {
                if is_digits(t) {
                    lemma_value_grows(t, k + 1);
                }
            }
            return None;
        }
        i = i + 1;
    }
    assert(t.subrange(0, (end - start) as int) =~= t);
    Some(acc as u32)
}

/// Canvas size from a reply that is text: tokens 1 and 2 are its width and
/// height (token 0 is the reply's tag).
pub fn parse_size_text(s: &[u8]) -> (r: Result<Canvas, SizeError>)
    ensures
        spans_of(s@).len() < 3 <==> r == Err::<Canvas, SizeError>(SizeError::TooFewTokens),
        spans_of(s@).len() >= 3 ==> {
            let w = token(s@, 1);
            let h = token(s@, 2);
            &&& !is_u32_decimal(w) <==> r == Err::<Canvas, SizeError>(SizeError::BadWidth)
            &&& is_u32_decimal(w) && !is_u32_decimal(h) <==> r == Err::<Canvas, SizeError>(
                SizeError::BadHeight,
            )
            &&& is_u32_decimal(w) && is_u32_decimal(h) <==> r == Ok::<Canvas, SizeError>(
                Canvas { width: digits_value(w) as u32, height: digits_value(h) as u32 },
            )
        },
{
    let spans = token_spans(s);
    if spans.len() < 3 {
        return Err(SizeError::TooFewTokens);
    }
    proof {
        lemma_spans_in_range(s@);
    }
    let (ws, we) = spans[1];
    let (hs, he) = spans[2];
    match parse_decimal(s, ws, we) {
        None => Err(SizeError::BadWidth),
        Some(width) => match parse_decimal(s, hs, he) {
            None => Err(SizeError::BadHeight),
            Some(height) => Ok(Canvas { width, height }),
        },
    }
}

/// Canvas size from the server's reply to the size request.
pub fn parse_size(s: &[u8]) -> (r: Result<Canvas, SizeError>)
    ensures
        !is_utf8(s@) <==> r == Err::<Canvas, SizeError>(SizeError::NotText),
        is_utf8(s@) ==> r == parse_size_result(s@),
{
    if !utf8_valid(s) {
        return Err(SizeError::NotText);
    }
    parse_size_text(s)
}

/// What `parse_size_text` returns for a reply `s`.
pub open spec fn parse_size_result(s: Seq<u8>) -> Result<Canvas, SizeError> {
    if spans_of(s).len() < 3 {
        Err(SizeError::TooFewTokens)
    } else if !is_u32_decimal(token(s, 1)) {
        Err(SizeError::BadWidth)
    } else if !is_u32_decimal(token(s, 2)) {
        Err(SizeError::BadHeight)
    } else {
        Ok(Canvas { width: digits_value(token(s, 1)) as u32, height: digits_value(token(s, 2)) as u32 })
    }
}

/// Every span lies inside `s`, start before end.
proof fn lemma_spans_in_range(s: Seq<u8>)
    ensures
        forall|k: int|
            0 <= k < spans_of(s).len() ==> 0 <= (#[trigger] spans_of(s)[k]).0 < spans_of(s)[k].1
                <= s.len(),
        s.len() > 0 && !is_ws(s.last()) ==> spans_of(s).len() > 0 && spans_of(s).last().1 == s.len(),
    decreases s.len(),
{
    if s.len() > 0 {
        let p = s.drop_last();
        lemma_spans_in_range(p);
        let prev = spans_of(p);
        let n = s.len() - 1;
        if !is_ws(s[n]) && n >= 1 && !is_ws(s[n - 1]) {
            assert(p.last() == s[n - 1]);
            let cur = spans_of(s);
            assert forall|k: int| 0 <= k < cur.len() implies 0 <= (#[trigger] cur[k]).0 < cur[k].1
                <= s.len() by {
                if k < prev.len() - 1 {
                    assert(cur[k] == prev[k]);
                }
            }
        }
    }
}

} // verus!
