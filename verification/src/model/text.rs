//! Scanning text: pieces between separators, decimal numbers and indices.

use crate::math::Fixed;
use vstd::prelude::*;

verus! {

/// The place of the first `sep` in `s`, or the length of `s` where it holds
/// none.
pub open spec fn find(s: Seq<u8>, sep: u8) -> int
    decreases s.len(),
{
    if s.len() == 0 {
        0
    } else if s[0] == sep {
        0
    } else {
        1 + find(s.skip(1), sep)
    }
}

/// What stands before the first `sep`.
pub open spec fn head(s: Seq<u8>, sep: u8) -> Seq<u8> {
    s.take(find(s, sep))
}

/// What stands after the first `sep`, where there is one.
pub open spec fn tail(s: Seq<u8>, sep: u8) -> Option<Seq<u8>> {
    if 0 <= find(s, sep) < s.len() {
        Some(s.skip(find(s, sep) + 1))
    } else {
        None
    }
}

/// Piece `k` of `s` cut at every `sep`, counted from 0, where `s` has that
/// many pieces. Two separators in a row enclose an empty piece.
pub open spec fn piece(s: Seq<u8>, sep: u8, k: nat) -> Option<Seq<u8>>
    decreases k,
{
    if k == 0 {
        Some(head(s, sep))
    } else {
        match tail(s, sep) {
            None => None,
            Some(rest) => piece(rest, sep, (k - 1) as nat),
        }
    }
}

pub open spec fn is_digit(b: u8) -> bool {
    48 <= b <= 57
}

pub open spec fn all_digits(s: Seq<u8>) -> bool {
    forall|i: int| 0 <= i < s.len() ==> is_digit(#[trigger] s[i])
}

/// The number that the decimal digits `s` write, or `cap` where it is
/// greater.
pub open spec fn digits_value(s: Seq<u8>, cap: int) -> int
    decreases s.len(),
{
    if s.len() == 0 {
        0
    } else {
        let v = digits_value(s.drop_last(), cap) * 10 + (s.last() - 48);
        if v > cap {
            cap
        } else {
            v
        }
    }
}

/// Ten to the power `n`.
pub open spec fn pow10(n: nat) -> int
    decreases n,
{
    if n == 0 {
        1
    } else {
        10 * pow10((n - 1) as nat)
    }
}

/// A word without its sign.
pub open spec fn unsigned(s: Seq<u8>) -> Seq<u8> {
    if s.len() > 0 && (s[0] == 45 || s[0] == 43) {
        s.skip(1)
    } else {
        s
    }
}

/// The digits after the point of a mantissa; none where it has no point.
pub open spec fn fraction(body: Seq<u8>) -> Seq<u8> {
    match tail(body, 46) {
        Some(f) => f,
        None => Seq::<u8>::empty(),
    }
}

/// What a run of digits comes to: how many of them make the value, the
/// value that they make, and how many after them were dropped.
pub struct Digits {
    pub count: int,
    pub value: int,
    pub dropped: int,
}

/// No digit yet.
pub open spec fn no_digits() -> Digits {
    Digits { count: 0, value: 0, dropped: 0 }
}

/// The digits `d` taken one by one after `st`. Zeros before the first
/// other digit do not count. The first 18 digits from there on make the
/// value. Every digit after them is dropped: it stands for a factor of ten,
/// whatever digit it is.
pub open spec fn count_on(st: Digits, d: Seq<u8>) -> Digits
    decreases d.len(),
{
    if d.len() == 0 {
        st
    } else {
        let prev = count_on(st, d.drop_last());
        let digit = d.last() - 48;
        if prev.count == 0 && digit == 0 {
            prev
        } else if prev.count < 18 {
            Digits { count: prev.count + 1, value: prev.value * 10 + digit, dropped: prev.dropped }
        } else {
            Digits { dropped: prev.dropped + 1, ..prev }
        }
    }
}

/// The mantissa of an unsigned number: what stands before the first `e` or
/// `E`.
pub open spec fn mantissa(body: Seq<u8>) -> Seq<u8> {
    head(head(body, 101), 69)
}

/// What stands after the `e` or `E` of an unsigned number, where it has
/// one.
pub open spec fn exponent_text(body: Seq<u8>) -> Option<Seq<u8>> {
    if mantissa(body).len() < body.len() {
        Some(body.skip(mantissa(body).len() as int + 1))
    } else {
        None
    }
}

/// The exponent that a text writes: an optional sign and at least one
/// digit. An exponent beyond 100000 either way counts as 100000.
pub open spec fn exponent_value(t: Seq<u8>) -> Option<int> {
    if unsigned(t).len() > 0 && all_digits(unsigned(t)) {
        if t[0] == 45 {
            Some(-digits_value(unsigned(t), 100000))
        } else {
            Some(digits_value(unsigned(t), 100000))
        }
    } else {
        None
    }
}

/// The exponent of an unsigned number: 0 where none is written.
pub open spec fn exponent_of(body: Seq<u8>) -> Option<int> {
    match exponent_text(body) {
        None => Some(0),
        Some(t) => exponent_value(t),
    }
}

/// `value * 10^x` as a raw magnitude: times 65536, rounded down.
pub open spec fn scaled(value: int, x: int) -> int {
    if x >= 0 {
        value * pow10(x as nat) * 65536
    } else {
        (value * 65536) / pow10((-x) as nat)
    }
}

/// The raw magnitude of the number with the digits `whole` before the
/// point, the digits `frac` after it and the exponent `e`.
pub open spec fn magnitude(whole: Seq<u8>, frac: Seq<u8>, e: int) -> int {
    let d = count_on(no_digits(), whole + frac);
    scaled(d.value, d.dropped + e - frac.len())
}

/// The number that a word writes: an optional sign; digits, optionally
/// with a point among them, before them or after them; and optionally an
/// exponent, `e` or `E` with an optional sign and digits. The value is
/// rounded toward zero to 16 binary places, and a number beyond the range
/// becomes the end of the range. Only the first 18 digits from the first
/// that is not zero count.
pub open spec fn decimal(s: Seq<u8>) -> Option<Fixed> {
    let body = unsigned(s);
    let whole = head(mantissa(body), 46);
    let frac = fraction(mantissa(body));
    if !all_digits(whole) || !all_digits(frac) || whole.len() + frac.len() == 0 {
        None
    } else {
        match exponent_of(body) {
            None => None,
            Some(e) => if s[0] == 45 {
                Some(Fixed::of_raw(-magnitude(whole, frac, e)))
            } else {
                Some(Fixed::of_raw(magnitude(whole, frac, e)))
            },
        }
    }
}

/// The index that a word writes: digits only, and at least one. An index
/// above 65535 becomes 65535.
pub open spec fn index_value(s: Seq<u8>) -> Option<usize> {
    if s.len() > 0 && all_digits(s) {
        Some(digits_value(s, 65535) as usize)
    } else {
        None
    }
}

/// Where no `sep` stands before place `n`, and one stands there or `s` ends
/// there, `n` is the place that `find` gives.
pub proof fn lemma_find(s: Seq<u8>, sep: u8, n: int)
    requires
        0 <= n <= s.len(),
        forall|j: int| 0 <= j < n ==> s[j] != sep,
        n < s.len() ==> s[n] == sep,
    ensures
        find(s, sep) == n,
    decreases s.len(),
{
    if s.len() > 0 && n > 0 {
        lemma_find(s.skip(1), sep, n - 1);
    }
}

/// The place of the first `sep` among `bytes[start..end]`, or `end`.
pub fn scan(bytes: &[u8], start: usize, end: usize, sep: u8) -> (at: usize)
    requires
        start <= end <= bytes@.len(),
    ensures
        start <= at <= end,
        at == start + find(bytes@.subrange(start as int, end as int), sep),
{
    let mut at: usize = start;
    while at < end && bytes[at] != sep
        invariant
            start <= at <= end <= bytes@.len(),
            forall|j: int| start <= j < at ==> bytes@[j] != sep,
        decreases end - at,
    {
        at = at + 1;
    }
    proof {
        lemma_find(bytes@.subrange(start as int, end as int), sep, at - start);
    }
    at
}

/// The bounds of piece `k` of `bytes[start..end]` cut at every `sep`.
pub fn nth_piece(bytes: &[u8], start: usize, end: usize, sep: u8, k: usize) -> (out: Option<
    (usize, usize),
>)
    requires
        start <= end <= bytes@.len(),
    ensures
        match out {
            Some((a, b)) => start <= a <= b <= end && piece(
                bytes@.subrange(start as int, end as int),
                sep,
                k as nat,
            ) == Some(bytes@.subrange(a as int, b as int)),
            None => piece(bytes@.subrange(start as int, end as int), sep, k as nat) is None,
        },
{
    let mut cur: usize = start;
    let mut i: usize = 0;
    while i < k
        invariant
            i <= k,
            start <= cur <= end <= bytes@.len(),
            piece(bytes@.subrange(start as int, end as int), sep, k as nat) == piece(
                bytes@.subrange(cur as int, end as int),
                sep,
                (k - i) as nat,
            ),
        decreases k - i,
    {
        let at = scan(bytes, cur, end, sep);
        if at == end {
            return None;
        }
        assert(bytes@.subrange(cur as int, end as int).skip(at - cur + 1) =~= bytes@.subrange(
            at + 1,
            end as int,
        ));
        cur = at + 1;
        i = i + 1;
    }
    let at = scan(bytes, cur, end, sep);
    assert(bytes@.subrange(cur as int, end as int).take(at - cur) =~= bytes@.subrange(
        cur as int,
        at as int,
    ));
    Some((cur, at))
}

/// Reads the digits `bytes[start..end]`: their value capped at `cap`, or
/// nothing where a byte is no digit.
pub fn read_digits(bytes: &[u8], start: usize, end: usize, cap: u64) -> (out: Option<u64>)
    requires
        start <= end <= bytes@.len(),
        cap <= 1_000_000_000,
    ensures
        out is Some <==> all_digits(bytes@.subrange(start as int, end as int)),
        out is Some ==> out->Some_0 == digits_value(
            bytes@.subrange(start as int, end as int),
            cap as int,
        ),
        out is Some ==> out->Some_0 <= cap,
{
    let mut value: u64 = 0;
    let mut i: usize = start;
    while i < end
        invariant
            start <= i <= end <= bytes@.len(),
            cap <= 1_000_000_000,
            value <= cap,
            all_digits(bytes@.subrange(start as int, i as int)),
            value == digits_value(bytes@.subrange(start as int, i as int), cap as int),
        decreases end - i,
    {
        let b: u8 = bytes[i];
        if b < 48 || b > 57 {
            assert(bytes@.subrange(start as int, end as int)[i - start] == b);
            return None;
        }
        assert(bytes@.subrange(start as int, i + 1).drop_last() =~= bytes@.subrange(
            start as int,
            i as int,
        ));
        let next: u64 = value * 10 + (b - 48) as u64;
        value = if next > cap { cap } else { next };
        i = i + 1;
    }
    Some(value)
}

/// Ten to the power `n`.
pub fn power_of_ten(n: usize) -> (out: u128)
    requires
        n <= 24,
    ensures
        out == pow10(n as nat),
        1 <= out <= 1_000_000_000_000_000_000_000_000,
{
    let mut out: u128 = 1;
    let mut i: usize = 0;
    while i < n
        invariant
            i <= n <= 24,
            out == pow10(i as nat),
        decreases n - i,
    {
        proof {
            lemma_pow10_grows(i as nat, 23);
            lemma_pow10_values();
        }
        out = out * 10;
        i = i + 1;
    }
    proof {
        lemma_pow10_grows(0, n as nat);
        lemma_pow10_grows(n as nat, 24);
        lemma_pow10_values();
    }
    out
}

/// Some powers of ten.
proof fn lemma_pow10_values()
    ensures
        pow10(0) == 1,
        pow10(6) == 1_000_000,
        pow10(18) == 1_000_000_000_000_000_000,
        pow10(23) == 100_000_000_000_000_000_000_000,
        pow10(24) == 1_000_000_000_000_000_000_000_000,
{
    reveal_with_fuel(pow10, 26);
}

/// A greater power of ten is a greater number.
proof fn lemma_pow10_grows(m: nat, n: nat)
    requires
        m <= n,
    ensures
        1 <= pow10(m) <= pow10(n),
    decreases n,
{
    if n > 0 && m == n {
        lemma_pow10_grows(0, (n - 1) as nat);
    } else if n > 0 {
        lemma_pow10_grows(m, (n - 1) as nat);
    }
}

/// Counting digits on is counting on the first run and then the second.
proof fn lemma_count_on_both(st: Digits, a: Seq<u8>, b: Seq<u8>)
    ensures
        count_on(st, a + b) == count_on(count_on(st, a), b),
    decreases b.len(),
{
    if b.len() == 0 {
        assert(a + b =~= a);
    } else {
        lemma_count_on_both(st, a, b.drop_last());
        assert((a + b).drop_last() =~= a + b.drop_last());
    }
}

/// Counts the digits `bytes[start..end]` on, after the `count` digits that
/// made `value` and the `dropped` ones after them.
fn gather(bytes: &[u8], start: usize, end: usize, count: u8, value: u64, dropped: usize) -> (out: (
    u8,
    u64,
    usize,
))
    requires
        start <= end <= bytes@.len(),
        all_digits(bytes@.subrange(start as int, end as int)),
        count <= 18,
        value < pow10(count as nat),
        dropped + (end - start) <= usize::MAX,
    ensures
        (Digits { count: out.0 as int, value: out.1 as int, dropped: out.2 as int }) == count_on(
            Digits { count: count as int, value: value as int, dropped: dropped as int },
            bytes@.subrange(start as int, end as int),
        ),
        out.0 <= 18,
        out.1 < pow10(out.0 as nat),
        out.2 <= dropped + (end - start),
{
    let ghost st = Digits { count: count as int, value: value as int, dropped: dropped as int };
    let mut count: u8 = count;
    let mut value: u64 = value;
    let mut dropped: usize = dropped;
    let mut i: usize = start;
    while i < end
        invariant
            start <= i <= end <= bytes@.len(),
            all_digits(bytes@.subrange(start as int, end as int)),
            count <= 18,
            value < pow10(count as nat),
            dropped + (end - i) <= usize::MAX,
            dropped <= st.dropped + (i - start),
            (Digits { count: count as int, value: value as int, dropped: dropped as int })
                == count_on(st, bytes@.subrange(start as int, i as int)),
        decreases end - i,
    {
        let b: u8 = bytes[i];
        proof {
            assert(bytes@.subrange(start as int, end as int)[i - start] == b);
            assert(bytes@.subrange(start as int, i + 1).drop_last() =~= bytes@.subrange(
                start as int,
                i as int,
            ));
            lemma_pow10_grows(count as nat, 18);
            lemma_pow10_values();
        }
        let digit: u8 = b - 48;
        if count > 0 || digit != 0 {
            if count < 18 {
                value = value * 10 + digit as u64;
                count = count + 1;
            } else {
                dropped = dropped + 1;
            }
        }
        i = i + 1;
    }
    proof {
        assert(bytes@.subrange(start as int, end as int) =~= bytes@.subrange(
            start as int,
            i as int,
        ));
    }
    (count, value, dropped)
}

/// The raw magnitude of `value * 10^x`, as far as it matters: never more
/// than 2^31, beyond which every number is the end of the range.
fn scale(value: u64, x: i128) -> (out: i64)
    requires
        value < 1_000_000_000_000_000_000,
    ensures
        0 <= out <= 0x8000_0000,
        out == (if scaled(value as int, x as int) > 0x8000_0000 {
            0x8000_0000
        } else {
            scaled(value as int, x as int)
        }),
{
    proof {
        lemma_pow10_values();
    }
    if value == 0 {
        proof {
            if x >= 0 {
                assert(0 * pow10(x as nat) * 65536 == 0) by (nonlinear_arith);
            } else {
                lemma_pow10_grows(0, (-x) as nat);
            }
        }
        return 0;
    }
    if x > 5 {
        proof {
            lemma_pow10_grows(6, x as nat);
            assert(value * pow10(x as nat) * 65536 > 0x8000_0000) by (nonlinear_arith)
                requires
                    value >= 1,
                    pow10(x as nat) >= 1_000_000,
            ;
        }
        return 0x8000_0000;
    }
    if x >= 0 {
        let power: u128 = power_of_ten(x as usize);
        proof {
            lemma_pow10_grows(x as nat, 6);
        }
        assert(value * power <= 1_000_000_000_000_000_000 * 1_000_000) by (nonlinear_arith)
            requires
                0 <= value < 1_000_000_000_000_000_000,
                0 <= power <= 1_000_000,
        ;
        let wide: u128 = (value as u128) * power * 65536;
        if wide > 0x8000_0000 {
            0x8000_0000
        } else {
            wide as i64
        }
    } else if x < -24 {
        proof {
            lemma_pow10_grows(24, (-x) as nat);
            assert((value * 65536) / pow10((-x) as nat) == 0) by (nonlinear_arith)
                requires
                    0 <= value * 65536 < pow10((-x) as nat),
            ;
        }
        0
    } else {
        let power: u128 = power_of_ten((-x) as usize);
        let wide: u128 = ((value as u128) * 65536) / power;
        if wide > 0x8000_0000 {
            0x8000_0000
        } else {
            wide as i64
        }
    }
}

/// Reads the exponent `bytes[start..end]`.
fn parse_exponent(bytes: &[u8], start: usize, end: usize) -> (out: Option<i64>)
    requires
        start <= end <= bytes@.len(),
    ensures
        match out {
            Some(e) => exponent_value(bytes@.subrange(start as int, end as int)) == Some(e as int),
            None => exponent_value(bytes@.subrange(start as int, end as int)) is None,
        },
        out is Some ==> -100000 <= out->Some_0 <= 100000,
{
    let ghost text = bytes@.subrange(start as int, end as int);
    let signed: bool = start < end && (bytes[start] == 45 || bytes[start] == 43);
    let from: usize = if signed { start + 1 } else { start };
    assert(unsigned(text) =~= bytes@.subrange(from as int, end as int));
    if from == end {
        return None;
    }
    match read_digits(bytes, from, end, 100000) {
        None => None,
        Some(v) => {
            assert(text[0] == bytes@[start as int]);
            if bytes[start] == 45 {
                Some(-(v as i64))
            } else {
                Some(v as i64)
            }
        },
    }
}

/// Where the parts of a number stand in `bytes[start..end]`: the start of
/// its unsigned body, its point (or the end of its mantissa), the start of
/// the digits after the point, and the end of its mantissa.
fn number_parts(bytes: &[u8], start: usize, end: usize) -> (out: (usize, usize, usize, usize))
    requires
        start <= end <= bytes@.len(),
    ensures
        start <= out.0 <= out.1 <= out.2 <= out.3 <= end,
        unsigned(bytes@.subrange(start as int, end as int)) == bytes@.subrange(
            out.0 as int,
            end as int,
        ),
        mantissa(bytes@.subrange(out.0 as int, end as int)) == bytes@.subrange(
            out.0 as int,
            out.3 as int,
        ),
        head(bytes@.subrange(out.0 as int, out.3 as int), 46) == bytes@.subrange(
            out.0 as int,
            out.1 as int,
        ),
        fraction(bytes@.subrange(out.0 as int, out.3 as int)) == bytes@.subrange(
            out.2 as int,
            out.3 as int,
        ),
        match exponent_text(bytes@.subrange(out.0 as int, end as int)) {
            None => out.3 == end,
            Some(t) => out.3 < end && t == bytes@.subrange(out.3 + 1, end as int),
        },
{
    let ghost word = bytes@.subrange(start as int, end as int);
    let signed: bool = start < end && (bytes[start] == 45 || bytes[start] == 43);
    let body_start: usize = if signed { start + 1 } else { start };
    assert(unsigned(word) =~= bytes@.subrange(body_start as int, end as int));
    let ghost body = bytes@.subrange(body_start as int, end as int);
    let small: usize = scan(bytes, body_start, end, 101);
    assert(head(body, 101) =~= bytes@.subrange(body_start as int, small as int));
    let mant_end: usize = scan(bytes, body_start, small, 69);
    assert(mantissa(body) =~= bytes@.subrange(body_start as int, mant_end as int));
    let ghost mant = bytes@.subrange(body_start as int, mant_end as int);
    let point: usize = scan(bytes, body_start, mant_end, 46);
    assert(head(mant, 46) =~= bytes@.subrange(body_start as int, point as int));
    let frac_start: usize = if point < mant_end { point + 1 } else { mant_end };
    assert(fraction(mant) =~= bytes@.subrange(frac_start as int, mant_end as int));
    if mant_end < end {
        assert(body.skip(mant_end - body_start + 1) =~= bytes@.subrange(mant_end + 1, end as int));
    }
    (body_start, point, frac_start, mant_end)
}

/// Reads the decimal number `bytes[start..end]`.
pub fn parse_decimal(bytes: &[u8], start: usize, end: usize) -> (out: Option<Fixed>)
    requires
        start <= end <= bytes@.len(),
    ensures
        out == decimal(bytes@.subrange(start as int, end as int)),
{
    let ghost word = bytes@.subrange(start as int, end as int);
    let (body_start, point, frac_start, mant_end) = number_parts(bytes, start, end);
    let ghost whole = bytes@.subrange(body_start as int, point as int);
    let ghost frac = bytes@.subrange(frac_start as int, mant_end as int);
    if read_digits(bytes, body_start, point, 1).is_none() {
        return None;
    }
    if read_digits(bytes, frac_start, mant_end, 1).is_none() {
        return None;
    }
    if point - body_start == 0 && mant_end - frac_start == 0 {
        return None;
    }
    let exponent: i64 = if mant_end < end {
        match parse_exponent(bytes, mant_end + 1, end) {
            None => { return None; },
            Some(e) => e,
        }
    } else {
        0
    };
    proof {
        lemma_pow10_values();
        lemma_count_on_both(no_digits(), whole, frac);
    }
    let first = gather(bytes, body_start, point, 0, 0, 0);
    let both = gather(bytes, frac_start, mant_end, first.0, first.1, first.2);
    proof {
        lemma_pow10_grows(both.0 as nat, 18);
    }
    let x: i128 = both.2 as i128 + exponent as i128 - (mant_end - frac_start) as i128;
    let magnitude: i64 = scale(both.1, x);
    assert(word[0] == bytes@[start as int]);
    if bytes[start] == 45 {
        Some(Fixed::clamp(-magnitude))
    } else {
        Some(Fixed::clamp(magnitude))
    }
}

/// Reads the index `bytes[start..end]`.
pub fn parse_index(bytes: &[u8], start: usize, end: usize) -> (out: Option<usize>)
    requires
        start <= end <= bytes@.len(),
    ensures
        out == index_value(bytes@.subrange(start as int, end as int)),
{
    if start == end {
        return None;
    }
    match read_digits(bytes, start, end, 65535) {
        None => None,
        Some(v) => Some(v as usize),
    }
}

} // verus!
