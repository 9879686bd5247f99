//! The text forms under which prices and history points lie in the cache:
//! the keys, the decimal text of a price, and the history member
//! `<price>:<unix timestamp>`.

use crate::fixed::decimal_round;
use crate::fixed::lemma_pow10_positive;
use crate::fixed::pow10;
use crate::fixed::round_half_away;
use crate::fixed::Amount;
use crate::fixed::MAX_DECIMAL_SCALE;
use crate::fixed::MAX_MANTISSA;
use crate::fixed::SCALE;
use crate::price_cache::PriceHistoryPoint;
use crate::requests::PriceResponse;
use crate::synthesis::old_price;
use crate::synthesis::resolve_old_price;
use rust_decimal::Decimal;
use std::str::FromStr;
use vstd::prelude::*;

verus! {

/// The byte `-`.
pub const MINUS: u8 = 45;

/// The byte `:`.
pub const COLON: u8 = 58;

/// The decimal digits of `n`, most significant first, without leading zeros.
pub open spec fn digits_of(n: nat) -> Seq<u8>
    decreases n,
{
    if n < 10 {
        seq![(48 + n) as u8]
    } else {
        digits_of(n / 10).push((48 + n % 10) as u8)
    }
}

/// The text of an integer: its digits, after a `-` if it is negative.
pub open spec fn integer_text(v: int) -> Seq<u8> {
    if v < 0 {
        seq![45u8] + digits_of((-v) as nat)
    } else {
        digits_of(v as nat)
    }
}

/// Whether `s` is a non-empty run of decimal digits.
pub open spec fn is_digits(s: Seq<u8>) -> bool {
    &&& s.len() > 0
    &&& forall|i: int| 0 <= i < s.len() ==> 48 <= #[trigger] s[i] <= 57
}

/// The number that a run of decimal digits stands for.
pub open spec fn value_of(s: Seq<u8>) -> nat
    decreases s.len(),
{
    if s.len() == 0 {
        0
    } else {
        value_of(s.drop_last()) * 10 + (s.last() - 48) as nat
    }
}

/// The integer that `s` stands for, if it is the text of one that fits 64
/// bits: digits, after an optional `-`. Leading zeros are read over.
pub open spec fn parsed_integer(s: Seq<u8>) -> Option<i64> {
    if s.len() > 0 && s[0] == 45 {
        let rest = s.drop_first();
        if is_digits(rest) && value_of(rest) <= 0x8000_0000_0000_0000 {
            Some((-(value_of(rest) as int)) as i64)
        } else {
            None
        }
    } else if is_digits(s) && value_of(s) <= 0x7fff_ffff_ffff_ffff {
        Some(value_of(s) as i64)
    } else {
        None
    }
}

/// The digits of a number are digits, and stand for the number.
pub proof fn lemma_digits_roundtrip(n: nat)
    ensures
        is_digits(digits_of(n)),
        value_of(digits_of(n)) == n,
        digits_of(n)[0] != 45,
    decreases n,
{
    if n < 10 {
        let d = digits_of(n);
        assert(d.len() == 1);
        assert(d.drop_last().len() == 0);
        assert(value_of(d.drop_last()) == 0);
    } else {
        lemma_digits_roundtrip(n / 10);
        let init = digits_of(n / 10);
        let d = digits_of(n);
        assert(d.drop_last() =~= init);
        assert(d[0] == init[0]);
    }
}

/// Reading the text of an integer gives the integer back.
pub proof fn lemma_integer_roundtrip(v: i64)
    ensures
        parsed_integer(integer_text(v as int)) == Some(v),
{
    if v < 0 {
        let n = (-(v as int)) as nat;
        lemma_digits_roundtrip(n);
        let s = integer_text(v as int);
        assert(s.drop_first() =~= digits_of(n));
    } else {
        lemma_digits_roundtrip(v as nat);
    }
}

/// A longer run of digits does not stand for a smaller number.
proof fn lemma_value_grows(s: Seq<u8>, i: int)
    requires
        0 <= i <= s.len(),
        forall|k: int| 0 <= k < s.len() ==> 48 <= #[trigger] s[k] <= 57,
    ensures
        value_of(s.subrange(0, i)) <= value_of(s),
    decreases s.len() - i,
{
    if i == s.len() {
        assert(s.subrange(0, i) =~= s);
    } else {
        lemma_value_grows(s, i + 1);
        let longer = s.subrange(0, i + 1);
        assert(longer.drop_last() =~= s.subrange(0, i));
    }
}

fn push_digits(n: u64, out: &mut Vec<u8>)
    ensures
        final(out)@ == old(out)@ + digits_of(n as nat),
    decreases n,
{
    if n >= 10 {
        push_digits(n / 10, out);
    }
    let d: u8 = (48 + n % 10) as u8;
    out.push(d);
    proof {
        if n >= 10 {
            assert(final(out)@ =~= old(out)@ + digits_of((n / 10) as nat).push(d));
        } else {
            assert(final(out)@ =~= old(out)@ + seq![d]);
        }
    }
}

/// The text of a moment: the decimal text of its seconds.
pub fn timestamp_text(timestamp: i64) -> (r: Vec<u8>)
    ensures
        r@ == integer_text(timestamp as int),
{
    let mut out: Vec<u8> = Vec::new();
    if timestamp < 0 {
        out.push(MINUS);
        let magnitude: u64 = (-(timestamp as i128)) as u64;
        push_digits(magnitude, &mut out);
    } else {
        push_digits(timestamp as u64, &mut out);
        assert(out@ =~= digits_of(timestamp as nat));
    }
    out
}

/// Reads the number that the digits of `text` from `from` on stand for;
/// `None` where there is none, where another byte stands among them, or
/// where the number exceeds `limit`.
fn parse_digits(text: &[u8], from: usize, limit: u64) -> (r: Option<u64>)
    requires
        from <= text@.len(),
        limit <= 0x8000_0000_0000_0000,
    ensures
        r == (if is_digits(text@.subrange(from as int, text@.len() as int)) && value_of(
            text@.subrange(from as int, text@.len() as int),
        ) <= limit {
            Some(value_of(text@.subrange(from as int, text@.len() as int)) as u64)
        } else {
            None
        }),
{
    let ghost run = text@.subrange(from as int, text@.len() as int);
    let n = text.len();
    if from == n {
        return None;
    }
    let mut acc: u64 = 0;
    let mut i: usize = from;
    proof {
        assert(run.subrange(0, 0) =~= Seq::<u8>::empty());
    }
    while i < n
        invariant
            from <= i <= n,
            n == text@.len(),
            from < n,
            run == text@.subrange(from as int, n as int),
            limit <= 0x8000_0000_0000_0000,
            forall|k: int| 0 <= k < i - from ==> 48 <= #[trigger] run[k] <= 57,
            acc == value_of(run.subrange(0, i - from)),
            acc <= limit,
        decreases n - i,
    {
        let b = text[i];
        assert(b == run[i - from]);
        if b < 48 || b > 57 {
            return None;
        }
        let d: u64 = (b - 48) as u64;
        proof {
            let longer = run.subrange(0, i - from + 1);
            assert(longer.drop_last() =~= run.subrange(0, i - from));
            assert(longer.last() == b);
        }
        let next: u128 = acc as u128 * 10 + d as u128;
        if next > limit as u128 {
            proof {
                if is_digits(run) {
                    lemma_value_grows(run, i - from + 1);
                }
            }
            return None;
        }
        acc = next as u64;
        i += 1;
    }
    proof {
        assert(run.subrange(0, n - from) =~= run);
    }
    Some(acc)
}

/// Reads a moment from its text.
pub fn parse_timestamp(text: &[u8]) -> (r: Option<i64>)
    ensures
        r == parsed_integer(text@),
{
    if text.len() > 0 && text[0] == MINUS {
        proof {
            assert(text@.drop_first() =~= text@.subrange(1, text@.len() as int));
        }
        match parse_digits(text, 1, 0x8000_0000_0000_0000) {
            Some(m) => Some((-(m as i128)) as i64),
            None => None,
        }
    } else {
        proof {
            assert(text@.subrange(0, text@.len() as int) =~= text@);
        }
        match parse_digits(text, 0, 0x7fff_ffff_ffff_ffff) {
            Some(m) => Some(m as i64),
            None => None,
        }
    }
}

/// Why a cached text could not be used.
#[derive(Clone, Copy, Debug, PartialEq, Eq, Structural)]
pub enum WireError {
    /// The text is not of the form that the cache holds.
    Unparseable,
}

/// The last `width` decimal digits of `n`, with leading zeros.
pub open spec fn padded_digits(n: nat, width: nat) -> Seq<u8>
    decreases width,
{
    if width == 0 {
        Seq::empty()
    } else {
        padded_digits(n / 10, (width - 1) as nat).push((48 + n % 10) as u8)
    }
}

/// The text of the decimal of mantissa `m` and scale `s`: the whole part,
/// and behind a point exactly `s` digits.
pub open spec fn decimal_text(m: nat, s: nat) -> Seq<u8> {
    if s == 0 {
        digits_of(m)
    } else {
        digits_of((m as int / pow10(s)) as nat) + seq![46u8] + padded_digits(
            (m as int % pow10(s)) as nat,
            s,
        )
    }
}

/// The text of a quantity: its whole part, a point, and three digits.
pub open spec fn amount_text(a: Amount) -> Seq<u8> {
    decimal_text(a.millis as nat, 3)
}

/// What `rust_decimal` reads from a text: mantissa and scale of the
/// decimal, or nothing where it reads no decimal.
pub uninterp spec fn parsed_decimal(text: Seq<u8>) -> Option<(i128, u32)>;

/// The quantity that a decimal stands for: the decimal rounded to three
/// digits, a tie going up. A negative decimal and one that is too large
/// stand for no quantity.
pub open spec fn amount_of_decimal(m: int, s: nat) -> Option<Amount> {
    let v = if s <= 3 {
        m * pow10((3 - s) as nat)
    } else {
        round_half_away(m, pow10((s - 3) as nat))
    };
    if m < 0 || v > u64::MAX {
        None
    } else {
        Some(Amount { millis: v as u64 })
    }
}

/// The quantity that a text stands for, if it stands for one.
pub open spec fn parsed_amount(text: Seq<u8>) -> Option<Amount> {
    match parsed_decimal(text) {
        Some((m, s)) => amount_of_decimal(m as int, s as nat),
        None => None,
    }
}

/// The place of the first `:` in `s`, if there is one.
pub open spec fn first_colon(s: Seq<u8>) -> Option<int>
    decreases s.len(),
{
    if s.len() == 0 {
        None
    } else if s[0] == 58 {
        Some(0)
    } else {
        match first_colon(s.drop_first()) {
            Some(i) => Some(i + 1),
            None => None,
        }
    }
}

/// The text of a history member: the price, a `:`, and the moment at which
/// the price was emitted.
pub open spec fn member_text(price: Amount, timestamp: i64) -> Seq<u8> {
    amount_text(price) + seq![58u8] + integer_text(timestamp as int)
}

/// The price and the moment that a history member stands for: the text
/// before its first `:` read as a price, the text behind it as a moment.
pub open spec fn parsed_member(text: Seq<u8>) -> Option<(Amount, i64)> {
    match first_colon(text) {
        None => None,
        Some(i) => match (
            parsed_amount(text.subrange(0, i)),
            parsed_integer(text.subrange(i + 1, text.len() as int)),
        ) {
            (Some(price), Some(timestamp)) => Some((price, timestamp)),
            _ => None,
        },
    }
}

/// The bytes of `asset_price:`.
pub open spec fn price_prefix() -> Seq<u8> {
    seq![97u8, 115u8, 115u8, 101u8, 116u8, 95u8, 112u8, 114u8, 105u8, 99u8, 101u8, 58u8]
}

/// The bytes of `asset_price_history:`.
pub open spec fn history_prefix() -> Seq<u8> {
    seq![
        97u8, 115u8, 115u8, 101u8, 116u8, 95u8, 112u8, 114u8, 105u8, 99u8, 101u8, 95u8, 104u8,
        105u8, 115u8, 116u8, 111u8, 114u8, 121u8, 58u8,
    ]
}

/// Reads a decimal from a text with `rust_decimal::Decimal::from_str` and
/// returns its mantissa and scale. The contract names what is read and
/// adds what holds of every decimal: a mantissa of at most 96 bits and a
/// scale of at most 28. A text that is not UTF-8 is read as no decimal.
#[verifier::external_body]
fn decimal_from_text(text: &[u8]) -> (r: Option<(i128, u32)>)
    ensures
        r == parsed_decimal(text@),
        r matches Some((m, s)) ==> s <= MAX_DECIMAL_SCALE && -MAX_MANTISSA <= m <= MAX_MANTISSA,
{
    let s = std::str::from_utf8(text).ok()?;
    Decimal::from_str(s).ok().map(|d| (d.mantissa(), d.scale()))
}

/// Writes the decimal of mantissa `m` and scale `s` as text with the
/// `Display` of `rust_decimal::Decimal` (`to_string`): the digits of the
/// whole part, and behind a point exactly `s` digits.
#[verifier::external_body]
fn decimal_to_text(m: i128, s: u32) -> (r: Vec<u8>)
    requires
        0 <= m <= MAX_MANTISSA,
        s <= MAX_DECIMAL_SCALE,
    ensures
        r@ == decimal_text(m as nat, s as nat),
{
    Decimal::from_i128_with_scale(m, s).to_string().into_bytes()
}

/// The quantity that the decimal of mantissa `mantissa` and scale `scale`
/// stands for.
pub fn amount_from_decimal(mantissa: i128, scale: u32) -> (r: Option<Amount>)
    requires
        scale <= MAX_DECIMAL_SCALE,
        -MAX_MANTISSA <= mantissa <= MAX_MANTISSA,
    ensures
        r == amount_of_decimal(mantissa as int, scale as nat),
{
    if mantissa < 0 {
        return None;
    }
    proof {
        reveal_with_fuel(pow10, 4);
    }
    let v: i128 = if scale == 0 {
        mantissa * 1000
    } else if scale == 1 {
        mantissa * 100
    } else if scale == 2 {
        mantissa * 10
    } else if scale == 3 {
        mantissa
    } else {
        decimal_round(mantissa, scale, SCALE).0
    };
    if v > u64::MAX as i128 {
        None
    } else {
        proof {
            if scale > 3 {
                lemma_pow10_positive((scale - 3) as nat);
                lemma_round_nonnegative(mantissa as int, pow10((scale - 3) as nat));
            }
        }
        Some(Amount::from_millis(v as u64))
    }
}

/// The volume that a summed decimal stands for: the decimal as a quantity,
/// the largest quantity where the sum is beyond it, and nothing where the
/// sum is negative, which no sum of quantities is.
pub fn volume_from_decimal(mantissa: i128, scale: u32) -> (r: Option<Amount>)
    requires
        scale <= MAX_DECIMAL_SCALE,
        -MAX_MANTISSA <= mantissa <= MAX_MANTISSA,
    ensures
        r == (if mantissa < 0 {
            None
        } else {
            match amount_of_decimal(mantissa as int, scale as nat) {
                Some(a) => Some(a),
                None => Some(Amount { millis: u64::MAX }),
            }
        }),
{
    if mantissa < 0 {
        return None;
    }
    match amount_from_decimal(mantissa, scale) {
        Some(a) => Some(a),
        None => Some(Amount::from_millis(u64::MAX)),
    }
}

/// Rounding a quantity that is not negative gives one that is not negative.
proof fn lemma_round_nonnegative(m: int, d: int)
    requires
        0 <= m,
        0 < d,
    ensures
        0 <= round_half_away(m, d),
{
    assert(0 <= (m + d / 2) / d) by (nonlinear_arith)
        requires
            0 <= m,
            0 < d,
    ;
}

/// Reads a price from its text.
pub fn parse_price(text: &[u8]) -> (r: Option<Amount>)
    ensures
        r == parsed_amount(text@),
{
    match decimal_from_text(text) {
        Some((m, s)) => amount_from_decimal(m, s),
        None => None,
    }
}

/// The text of a price: its whole part, a point, and three digits.
pub fn price_text(price: Amount) -> (r: Vec<u8>)
    ensures
        r@ == amount_text(price),
{
    decimal_to_text(price.millis as i128, SCALE)
}

fn append_bytes(out: &mut Vec<u8>, more: &Vec<u8>)
    ensures
        final(out)@ == old(out)@ + more@,
{
    let mut i: usize = 0;
    while i < more.len()
        invariant
            0 <= i <= more@.len(),
            out@ == old(out)@ + more@.subrange(0, i as int),
        decreases more@.len() - i,
    {
        out.push(more[i]);
        assert(more@.subrange(0, i + 1) =~= more@.subrange(0, i as int).push(more@[i as int]));
        i += 1;
    }
    assert(more@.subrange(0, more@.len() as int) =~= more@);
}

/// The member under which a price emitted at `timestamp` lies in the history.
pub fn history_member(price: Amount, timestamp: i64) -> (r: Vec<u8>)
    ensures
        r@ == member_text(price, timestamp),
{
    let mut out = price_text(price);
    out.push(COLON);
    let moment = timestamp_text(timestamp);
    append_bytes(&mut out, &moment);
    out
}

fn find_colon(text: &[u8]) -> (r: Option<usize>)
    ensures
        match r {
            Some(i) => first_colon(text@) == Some(i as int) && i < text@.len(),
            None => first_colon(text@) is None,
        },
{
    let n = text.len();
    let mut i: usize = 0;
    while i < n
        invariant
            0 <= i <= n,
            n == text@.len(),
            forall|k: int| 0 <= k < i ==> text@[k] != 58,
        decreases n - i,
    {
        if text[i] == COLON {
            proof {
                lemma_first_colon(text@, i as int);
            }
            return Some(i);
        }
        i += 1;
    }
    proof {
        lemma_no_colon(text@);
    }
    None
}

/// The first `:` is where the search finds it.
proof fn lemma_first_colon(s: Seq<u8>, i: int)
    requires
        0 <= i < s.len(),
        s[i] == 58,
        forall|k: int| 0 <= k < i ==> s[k] != 58,
    ensures
        first_colon(s) == Some(i),
    decreases i,
{
    if i > 0 {
        let rest = s.drop_first();
        assert forall|k: int| 0 <= k < i - 1 implies rest[k] != 58 by {
            assert(rest[k] == s[k + 1]);
        }
        lemma_first_colon(rest, i - 1);
    }
}

/// A text without a `:` has no first one.
proof fn lemma_no_colon(s: Seq<u8>)
    requires
        forall|k: int| 0 <= k < s.len() ==> s[k] != 58,
    ensures
        first_colon(s) is None,
    decreases s.len(),
{
    if s.len() > 0 {
        let rest = s.drop_first();
        assert forall|k: int| 0 <= k < rest.len() implies rest[k] != 58 by {
            assert(rest[k] == s[k + 1]);
        }
        lemma_no_colon(rest);
    }
}

fn copy_range(text: &[u8], from: usize, to: usize) -> (r: Vec<u8>)
    requires
        from <= to <= text@.len(),
    ensures
        r@ == text@.subrange(from as int, to as int),
{
    let mut out: Vec<u8> = Vec::new();
    let mut i: usize = from;
    while i < to
        invariant
            from <= i <= to,
            to <= text@.len(),
            out@ == text@.subrange(from as int, i as int),
        decreases to - i,
    {
        out.push(text[i]);
        assert(text@.subrange(from as int, i + 1) =~= text@.subrange(from as int, i as int).push(
            text@[i as int],
        ));
        i += 1;
    }
    out
}

/// Reads the price and the moment of a history member.
pub fn parse_history_member(text: &[u8]) -> (r: Option<(Amount, i64)>)
    ensures
        r == parsed_member(text@),
{
    let at = match find_colon(text) {
        Some(i) => i,
        None => { return None; },
    };
    let n = text.len();
    assert(at < n);
    let left = copy_range(text, 0, at);
    let right = copy_range(text, at + 1, n);
    let price = parse_price(left.as_slice());
    let moment = parse_timestamp(right.as_slice());
    match price {
        Some(p) => match moment {
            Some(t) => Some((p, t)),
            None => None,
        },
        None => None,
    }
}

/// Whether a point for the minute that starts at `bucket` is to be written
/// behind the most recent member `last`: only where that member was
/// emitted before the minute began. An empty history takes every point; a
/// member that cannot be read is a failure.
pub fn should_append(last: Option<&[u8]>, bucket: i64) -> (r: Result<bool, WireError>)
    ensures
        r == match last {
            None => Ok::<bool, WireError>(true),
            Some(text) => match parsed_member(text@) {
                Some((_, emitted_at)) => Ok::<bool, WireError>(emitted_at < bucket),
                None => Err::<bool, WireError>(WireError::Unparseable),
            },
        },
{
    match last {
        None => Ok(true),
        Some(text) => match parse_history_member(text) {
            Some((_, emitted_at)) => Ok(emitted_at < bucket),
            None => Err(WireError::Unparseable),
        },
    }
}

/// A point emitted at `emitted_at` is of an older minute than the one that
/// starts at `bucket` exactly if it was emitted before that minute began.
pub proof fn lemma_older_bucket(emitted_at: int, bucket: int)
    requires
        bucket % 60 == 0,
    ensures
        (emitted_at / 60) * 60 < bucket <==> emitted_at < bucket,
{
}

/// The key under which the current price of `asset_id` lies.
pub fn price_key(asset_id: i32) -> (r: Vec<u8>)
    ensures
        r@ == price_prefix() + integer_text(asset_id as int),
{
    let mut out: Vec<u8> = vec![97u8, 115u8, 115u8, 101u8, 116u8, 95u8, 112u8, 114u8, 105u8, 99u8, 101u8, 58u8];
    assert(out@ =~= price_prefix());
    let id = timestamp_text(asset_id as i64);
    append_bytes(&mut out, &id);
    out
}

/// The key under which the price history of `asset_id` lies.
pub fn history_key(asset_id: i32) -> (r: Vec<u8>)
    ensures
        r@ == history_prefix() + integer_text(asset_id as int),
{
    let mut out: Vec<u8> = vec![
        97u8, 115u8, 115u8, 101u8, 116u8, 95u8, 112u8, 114u8, 105u8, 99u8, 101u8, 95u8, 104u8,
        105u8, 115u8, 116u8, 111u8, 114u8, 121u8, 58u8,
    ];
    assert(out@ =~= history_prefix());
    let id = timestamp_text(asset_id as i64);
    append_bytes(&mut out, &id);
    out
}

/// What the cache holds under the key of a current price: the price, and
/// the moment at which it was written, each as far as it could be read.
#[derive(Clone, Copy, Debug, PartialEq, Eq, Structural)]
pub struct PriceInfo {
    pub price: Option<Amount>,
    pub created_at: Option<i64>,
}

/// The moment that `chrono` reads from an RFC 3339 text, in seconds since
/// the epoch, or nothing where it reads no moment.
pub uninterp spec fn parsed_rfc3339(text: Seq<u8>) -> Option<i64>;

/// The RFC 3339 text that `chrono` writes for a moment given in seconds
/// since the epoch, or nothing where the moment is beyond its calendar.
pub uninterp spec fn rfc3339_text(timestamp: i64) -> Option<Seq<u8>>;

/// Reads a moment from an RFC 3339 text with
/// `chrono::DateTime::parse_from_rfc3339` and returns its
/// `DateTime::timestamp`. The contract names what is read. A text that is
/// not UTF-8 is read as no moment.
#[verifier::external_body]
fn rfc3339_to_seconds(text: &[u8]) -> (r: Option<i64>)
    ensures
        r == parsed_rfc3339(text@),
{
    let s = std::str::from_utf8(text).ok()?;
    chrono::DateTime::parse_from_rfc3339(s).ok().map(|d| d.timestamp())
}

/// Writes a moment as RFC 3339 text with `chrono::DateTime::from_timestamp`
/// and `DateTime::to_rfc3339`. The contract names what is written.
#[verifier::external_body]
fn seconds_to_rfc3339(timestamp: i64) -> (r: Option<Vec<u8>>)
    ensures
        r matches Some(v) ==> rfc3339_text(timestamp) == Some(v@),
        r is None ==> rfc3339_text(timestamp) is None,
{
    chrono::DateTime::from_timestamp(timestamp, 0).map(|d| d.to_rfc3339().into_bytes())
}

/// Whether every byte of `s` is an ASCII character.
pub open spec fn is_ascii_text(s: Seq<u8>) -> bool {
    forall|i: int| 0 <= i < s.len() ==> #[trigger] s[i] < 128
}

/// The characters of an ASCII text.
pub open spec fn chars_of(s: Seq<u8>) -> Seq<char> {
    Seq::new(s.len(), |i: int| s[i] as char)
}

/// Makes a string of bytes with `String::from_utf8`. Bytes that are all
/// ASCII are valid UTF-8, one character each, so they always make a string,
/// and it holds those characters. Of other bytes nothing is claimed.
#[verifier::external_body]
fn string_of(bytes: Vec<u8>) -> (r: Option<String>)
    ensures
        r is None ==> !is_ascii_text(bytes@),
        r matches Some(s) ==> (is_ascii_text(bytes@) ==> s@ == chars_of(bytes@)),
{
    String::from_utf8(bytes).ok()
}

/// What the two fields of a current price stand for. A missing price
/// field means that the cache is cold; a price field that is there and
/// cannot be read is a failure, not a cold cache. The moment is absent
/// where its field is missing or cannot be read.
pub open spec fn price_info_of(price: Option<Seq<u8>>, created_at: Option<Seq<u8>>) -> Result<
    PriceInfo,
    WireError,
> {
    let moment = match created_at {
        Some(text) => parsed_rfc3339(text),
        None => None,
    };
    match price {
        None => Ok(PriceInfo { price: None, created_at: moment }),
        Some(text) => match parsed_amount(text) {
            Some(p) => Ok(PriceInfo { price: Some(p), created_at: moment }),
            None => Err(WireError::Unparseable),
        },
    }
}

/// The view of an optional text.
pub open spec fn text_view(text: Option<&[u8]>) -> Option<Seq<u8>> {
    match text {
        Some(t) => Some(t@),
        None => None,
    }
}

/// Reads the two fields of a current price.
pub fn read_price_info(price: Option<&[u8]>, created_at: Option<&[u8]>) -> (r: Result<
    PriceInfo,
    WireError,
>)
    ensures
        r == price_info_of(text_view(price), text_view(created_at)),
{
    let found = match price {
        None => None,
        Some(text) => match parse_price(text) {
            Some(p) => Some(p),
            None => { return Err(WireError::Unparseable); },
        },
    };
    let moment = match created_at {
        Some(text) => rfc3339_to_seconds(text),
        None => None,
    };
    Ok(PriceInfo { price: found, created_at: moment })
}

/// The price that synthesis starts from, given the two fields of the
/// cached price and the price of the latest snapshot: the cached price,
/// else that of the snapshot, else the default. A cached price that is
/// there and cannot be read is a failure for the asset; it is not taken
/// for a cold cache, and nothing is seeded in its place.
pub fn seed_price(
    price: Option<&[u8]>,
    created_at: Option<&[u8]>,
    snapshot: Option<Amount>,
) -> (r: Result<Amount, WireError>)
    ensures
        r == match price_info_of(text_view(price), text_view(created_at)) {
            Ok(info) => Ok::<Amount, WireError>(old_price(info.price, snapshot)),
            Err(e) => Err::<Amount, WireError>(e),
        },
{
    match read_price_info(price, created_at) {
        Ok(info) => Ok(resolve_old_price(info.price, snapshot)),
        Err(e) => Err(e),
    }
}

/// The two fields under which a price written at `now` lies in the cache:
/// the text of the price, and the RFC 3339 text of the moment where the
/// calendar reaches it.
pub fn price_fields(price: Amount, now: i64) -> (r: (Vec<u8>, Option<Vec<u8>>))
    ensures
        r.0@ == amount_text(price),
        match r.1 {
            Some(v) => rfc3339_text(now) == Some(v@),
            None => rfc3339_text(now) is None,
        },
{
    (price_text(price), seconds_to_rfc3339(now))
}

/// The digits of a number are ASCII characters.
proof fn lemma_digits_ascii(n: nat)
    ensures
        is_ascii_text(digits_of(n)),
    decreases n,
{
    if n >= 10 {
        lemma_digits_ascii(n / 10);
    }
}

/// Padded digits are ASCII characters, as many as asked for.
proof fn lemma_padded_ascii(n: nat, width: nat)
    ensures
        is_ascii_text(padded_digits(n, width)),
        padded_digits(n, width).len() == width,
    decreases width,
{
    if width > 0 {
        lemma_padded_ascii(n / 10, (width - 1) as nat);
    }
}

/// The text of a quantity and the text of an integer are ASCII.
pub proof fn lemma_texts_ascii(a: Amount, v: int)
    ensures
        is_ascii_text(amount_text(a)),
        is_ascii_text(integer_text(v)),
{
    lemma_pow10_positive(3);
    lemma_digits_ascii((a.millis as int / pow10(3)) as nat);
    lemma_padded_ascii((a.millis as int % pow10(3)) as nat, 3);
    if v < 0 {
        lemma_digits_ascii((-v) as nat);
    } else {
        lemma_digits_ascii(v as nat);
    }
}

/// A history point as the two texts that a listing shows: its price, and
/// the moment at which the price was emitted.
pub fn price_response(point: &PriceHistoryPoint) -> (r: PriceResponse)
    ensures
        r.price@ == chars_of(amount_text(point.price)),
        r.timestamp@ == chars_of(integer_text(point.emitted_at as int)),
{
    proof {
        lemma_texts_ascii(point.price, point.emitted_at as int);
    }
    let price = match string_of(price_text(point.price)) {
        Some(s) => s,
        None => String::new(),
    };
    let timestamp = match string_of(timestamp_text(point.emitted_at)) {
        Some(s) => s,
        None => String::new(),
    };
    PriceResponse { price: price, timestamp: timestamp }
}

} // verus!
