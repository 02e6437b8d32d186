//! Numbers as decimal text: whole numbers, and lengths counted in 64ths.

use crate::text::push_char;
use vstd::prelude::*;

verus! {

/// The value of a decimal digit, or `None` for any other character.
pub open spec fn digit_value(c: char) -> Option<nat> {
    if '0' <= c <= '9' {
        Some((c as u32 - 0x30) as nat)
    } else {
        None
    }
}

/// The number that the decimal digits `s` write, or `None` where `s` is empty or holds
/// anything but digits.
pub open spec fn digits_value(s: Seq<char>) -> Option<nat>
    decreases s.len(),
{
    if s.len() == 0 {
        None
    } else if s.len() == 1 {
        digit_value(s[0])
    } else {
        match (digits_value(s.drop_last()), digit_value(s.last())) {
            (Some(v), Some(d)) => Some(v * 10 + d),
            _ => None,
        }
    }
}

/// `s` without a plus sign at its start.
pub open spec fn unsigned_part(s: Seq<char>) -> Seq<char> {
    if s.len() > 0 && s[0] == '+' {
        s.skip(1)
    } else {
        s
    }
}

/// The `u32` that `s` writes in decimal, with or without a plus sign before it.
pub open spec fn parsed_u32(s: Seq<char>) -> Option<u32> {
    match digits_value(unsigned_part(s)) {
        Some(v) => if v <= u32::MAX {
            Some(v as u32)
        } else {
            None
        },
        None => None,
    }
}

/// The `i64` that `s` writes in decimal, with or without a sign before it.
pub open spec fn parsed_i64(s: Seq<char>) -> Option<i64> {
    if s.len() > 0 && s[0] == '-' {
        match digits_value(s.skip(1)) {
            Some(v) => if v <= 0x8000_0000_0000_0000 {
                Some((-(v as int)) as i64)
            } else {
                None
            },
            None => None,
        }
    } else {
        match digits_value(unsigned_part(s)) {
            Some(v) => if v <= i64::MAX {
                Some(v as i64)
            } else {
                None
            },
            None => None,
        }
    }
}

/// The decimal digit for `d`, which is below 10.
pub open spec fn digit_char(d: nat) -> char {
    (0x30 + d) as u8 as char
}

/// `n` in decimal, without leading zeros.
pub open spec fn decimal(n: nat) -> Seq<char>
    decreases n,
{
    if n < 10 {
        seq![digit_char(n)]
    } else {
        decimal(n / 10).push(digit_char(n % 10))
    }
}

/// `n` in decimal, with a minus sign where it is negative.
pub open spec fn signed_decimal(n: int) -> Seq<char> {
    if n < 0 {
        seq!['-'] + decimal((-n) as nat)
    } else {
        decimal(n as nat)
    }
}

/// The digits of a prefix write a number that is no greater than that of the whole.
pub proof fn lemma_digits_prefix(s: Seq<char>, i: int)
    requires
        1 <= i <= s.len(),
        digits_value(s) is Some,
    ensures
        digits_value(s.take(i)) is Some,
        digits_value(s.take(i))->0 <= digits_value(s)->0,
    decreases s.len(),
{
    if i == s.len() {
        assert(s.take(i) =~= s);
    } else {
        assert(s.drop_last().take(i) =~= s.take(i));
        lemma_digits_prefix(s.drop_last(), i);
    }
}

/// The number written by the decimal digits `chars[from..]`, where it is at most `limit`.
pub(crate) fn parse_digits(chars: &Vec<char>, from: usize, limit: u128) -> (r: Option<u128>)
    requires
        from <= chars.len(),
        limit <= 0xFFFF_FFFF_FFFF_FFFF,
    ensures
        r == match digits_value(chars@.skip(from as int)) {
            Some(v) => if v <= limit {
                Some(v as u128)
            } else {
                None
            },
            None => None,
        },
{
    let ghost s = chars@.skip(from as int);
    if from == chars.len() {
        return None;
    }
    let mut acc: u128 = 0;
    let mut i: usize = from;
    while i < chars.len()
        invariant
            from <= i <= chars.len(),
            from < chars.len(),
            s == chars@.skip(from as int),
            limit <= 0xFFFF_FFFF_FFFF_FFFF,
            acc <= limit,
            i > from ==> digits_value(s.take(i - from)) == Some(acc as nat),
            i == from ==> acc == 0,
        decreases chars.len() - i,
    {
        let c = chars[i];
        proof {
            assert(s.take(i - from + 1).drop_last() =~= s.take(i - from));
            assert(s.take(i - from + 1).last() == c);
            if digits_value(s) is Some {
                lemma_digits_prefix(s, i - from + 1);
            }
        }
        if !('0' <= c && c <= '9') {
            return None;
        }
        let d: u128 = (c as u32 - 0x30) as u128;
        acc = acc * 10 + d;
        if acc > limit {
            return None;
        }
        i = i + 1;
    }
    assert(s.take(i - from) =~= s);
    Some(acc)
}

/// Reads a `u32` in decimal, with or without a plus sign before it.
pub fn parse_u32(s: &str) -> (r: Option<u32>)
    ensures
        r == parsed_u32(s@),
{
    let chars = crate::text::collect_chars(s);
    let from: usize = if chars.len() > 0 && chars[0] == '+' {
        1
    } else {
        0
    };
    assert(chars@.skip(0) =~= chars@);
    match parse_digits(&chars, from, 0xFFFF_FFFF) {
        Some(v) => Some(v as u32),
        None => None,
    }
}

/// Reads an `i64` in decimal, with or without a sign before it.
pub fn parse_i64(s: &str) -> (r: Option<i64>)
    ensures
        r == parsed_i64(s@),
{
    let chars = crate::text::collect_chars(s);
    assert(chars@.skip(0) =~= chars@);
    if chars.len() > 0 && chars[0] == '-' {
        match parse_digits(&chars, 1, 0x8000_0000_0000_0000) {
            Some(v) => {
                if v == 0x8000_0000_0000_0000 {
                    Some(i64::MIN)
                } else {
                    Some(-(v as i64))
                }
            },
            None => None,
        }
    } else {
        let from: usize = if chars.len() > 0 && chars[0] == '+' {
            1
        } else {
            0
        };
        match parse_digits(&chars, from, 0x7FFF_FFFF_FFFF_FFFF) {
            Some(v) => Some(v as i64),
            None => None,
        }
    }
}

/// Appends `n` in decimal to `out`.
pub fn push_decimal(out: &mut String, n: u64)
    ensures
        final(out)@ == old(out)@ + decimal(n as nat),
    decreases n,
{
    if n >= 10 {
        push_decimal(out, n / 10);
    }
    let d: u8 = (n % 10) as u8;
    let ghost before = out@;
    push_char(out, (0x30 + d) as char);
    proof {
        if n >= 10 {
            assert(out@ =~= old(out)@ + decimal(n as nat));
        } else {
            assert(out@ =~= old(out)@ + decimal(n as nat));
        }
    }
}

/// Appends `n` in decimal to `out`, with a minus sign where it is negative.
pub fn push_signed_decimal(out: &mut String, n: i64)
    ensures
        final(out)@ == old(out)@ + signed_decimal(n as int),
{
    if n < 0 {
        push_char(out, '-');
        let magnitude: u64 = if n == i64::MIN {
            0x8000_0000_0000_0000
        } else {
            (-n) as u64
        };
        push_decimal(out, magnitude);
        assert(out@ =~= old(out)@ + signed_decimal(n as int));
    } else {
        push_decimal(out, n as u64);
    }
}

/// Every character is a decimal digit.
pub open spec fn all_digits(s: Seq<char>) -> bool {
    forall|i: int| 0 <= i < s.len() ==> digit_value(#[trigger] s[i]) is Some
}

/// The first six digits behind the decimal point as millionths; missing digits count as
/// zeros.
pub open spec fn millionths(frac: Seq<char>) -> nat
    decreases 6 - frac.len(),
{
    if frac.len() >= 6 {
        digits_value(frac.take(6))->0
    } else {
        millionths(frac.push('0'))
    }
}

/// The index of the first `c` in `s`, or the length of `s` where it has none.
pub open spec fn first_index(s: Seq<char>, c: char) -> nat
    decreases s.len(),
{
    if s.len() == 0 || s[0] == c {
        0
    } else {
        1 + first_index(s.drop_first(), c)
    }
}

/// The length in 64ths that `s` writes as a decimal number of whole units: digits with or
/// without a decimal point among them and a plus sign before them. The 64ths are rounded
/// down.
pub open spec fn parsed_64ths(s: Seq<char>) -> Option<u32> {
    let body = unsigned_part(s);
    let dot = first_index(body, '.') as int;
    let whole = body.take(dot);
    let frac = if dot < body.len() {
        body.skip(dot + 1)
    } else {
        Seq::empty()
    };
    if whole.len() + frac.len() == 0 || !all_digits(whole) || !all_digits(frac) {
        None
    } else {
        let units = if whole.len() == 0 {
            0
        } else {
            digits_value(whole)->0
        };
        let total = units * 64 + millionths(frac) * 64 / 1_000_000;
        if total <= u32::MAX {
            Some(total as u32)
        } else {
            None
        }
    }
}

/// The last `places` decimal digits of `n`, with zeros before them where `n` has fewer.
pub open spec fn fixed_digits(n: nat, places: nat) -> Seq<char>
    decreases places,
{
    if places == 0 {
        Seq::empty()
    } else {
        fixed_digits(n / 10, (places - 1) as nat).push(digit_char(n % 10))
    }
}

/// The digits behind the decimal point for a fraction of `n` parts in ten to the power of
/// `places`, without zeros at the end.
pub open spec fn fraction_digits(n: nat, places: nat) -> Seq<char>
    decreases places,
{
    if places == 0 {
        Seq::empty()
    } else if n % 10 == 0 {
        fraction_digits(n / 10, (places - 1) as nat)
    } else {
        fixed_digits(n, places)
    }
}

/// Digits that are all digits write a number.
pub proof fn lemma_all_digits_value(s: Seq<char>)
    requires
        s.len() > 0,
    ensures
        digits_value(s) is Some <==> all_digits(s),
    decreases s.len(),
{
    if s.len() > 1 {
        lemma_all_digits_value(s.drop_last());
        if all_digits(s) {
            assert forall|i: int| 0 <= i < s.drop_last().len() implies digit_value(
                #[trigger] s.drop_last()[i],
            ) is Some by {
                assert(s.drop_last()[i] == s[i]);
            }
            assert(digit_value(s[s.len() - 1]) is Some);
        }
        if digits_value(s) is Some {
            assert forall|i: int| 0 <= i < s.len() implies digit_value(#[trigger] s[i]) is Some by {
                if i < s.len() - 1 {
                    assert(s.drop_last()[i] == s[i]);
                }
            }
        }
    } else {
        if digits_value(s) is Some {
            assert forall|i: int| 0 <= i < s.len() implies digit_value(#[trigger] s[i]) is Some by {
                assert(i == 0);
            }
        } else {
            assert(digit_value(s[0]) is None);
        }
    }
}

/// Whether `chars[from..to]` are all decimal digits.
pub(crate) fn is_all_digits(chars: &Vec<char>, from: usize, to: usize) -> (r: bool)
    requires
        from <= to <= chars.len(),
    ensures
        r == all_digits(chars@.subrange(from as int, to as int)),
{
    let ghost s = chars@.subrange(from as int, to as int);
    let mut i: usize = from;
    while i < to
        invariant
            from <= i <= to <= chars.len(),
            s == chars@.subrange(from as int, to as int),
            forall|j: int| 0 <= j < i - from ==> digit_value(#[trigger] s[j]) is Some,
        decreases to - i,
    {
        let c = chars[i];
        if !('0' <= c && c <= '9') {
            assert(digit_value(s[i - from]) is None);
            return false;
        }
        i = i + 1;
    }
    true
}

/// The characters `chars[from..to]`.
pub(crate) fn copy_chars(chars: &Vec<char>, from: usize, to: usize) -> (part: Vec<char>)
    requires
        from <= to <= chars.len(),
    ensures
        part@ == chars@.subrange(from as int, to as int),
{
    let mut part: Vec<char> = Vec::new();
    let mut i: usize = from;
    while i < to
        invariant
            from <= i <= to <= chars.len(),
            part@ == chars@.subrange(from as int, i as int),
        decreases to - i,
    {
        part.push(chars[i]);
        i = i + 1;
        assert(part@ =~= chars@.subrange(from as int, i as int));
    }
    part
}

/// The index of the first `c` in `chars[from..]`, or the length of `chars`.
pub(crate) fn find_char(chars: &Vec<char>, from: usize, c: char) -> (at: usize)
    requires
        from <= chars.len(),
    ensures
        from <= at <= chars.len(),
        at - from == first_index(chars@.skip(from as int), c),
{
    let mut at: usize = from;
    assert(chars@.skip(from as int).skip(0) =~= chars@.skip(from as int));
    while at < chars.len() && chars[at] != c
        invariant
            from <= at <= chars.len(),
            first_index(chars@.skip(from as int), c) == at - from + first_index(
                chars@.skip(at as int),
                c,
            ),
        decreases chars.len() - at,
    {
        assert(chars@.skip(at as int).drop_first() =~= chars@.skip(at + 1));
        at = at + 1;
    }
    at
}

/// Reads a length in 64ths from a decimal number of whole units.
pub fn parse_64ths(s: &str) -> (r: Option<u32>)
    ensures
        r == parsed_64ths(s@),
{
    let chars = crate::text::collect_chars(s);
    let n = chars.len();
    let from: usize = if n > 0 && chars[0] == '+' {
        1
    } else {
        0
    };
    let ghost body = unsigned_part(s@);
    assert(chars@.skip(0) =~= chars@);
    assert(body == chars@.skip(from as int));
    let dot = find_char(&chars, from, '.');
    let frac_from: usize = if dot < n {
        dot + 1
    } else {
        n
    };
    let ghost whole = body.take(dot - from);
    let ghost frac = if dot - from < body.len() {
        body.skip(dot - from + 1)
    } else {
        Seq::<char>::empty()
    };
    assert(whole =~= chars@.subrange(from as int, dot as int));
    assert(frac =~= chars@.subrange(frac_from as int, n as int));
    if dot - from + (n - frac_from) == 0 {
        return None;
    }
    if !is_all_digits(&chars, from, dot) || !is_all_digits(&chars, frac_from, n) {
        return None;
    }
    let units: u128 = if dot == from {
        0
    } else {
        let digits = copy_chars(&chars, from, dot);
        assert(digits@.skip(0) =~= digits@);
        proof {
            lemma_all_digits_value(whole);
        }
        match parse_digits(&digits, 0, 0x3FF_FFFF) {
            Some(v) => v,
            None => {
                return None;
            },
        }
    };
    let kept: usize = if n - frac_from > 6 {
        frac_from + 6
    } else {
        n
    };
    let mut padded = copy_chars(&chars, frac_from, kept);
    proof {
        if frac.len() >= 6 {
            assert(padded@ =~= frac.take(6));
        } else {
            assert(padded@ =~= frac);
        }
    }
    while padded.len() < 6
        invariant
            padded@.len() <= 6,
            all_digits(padded@),
            frac.len() >= 6 ==> padded@ == frac.take(6),
            frac.len() < 6 ==> millionths(padded@) == millionths(frac),
        decreases 6 - padded.len(),
    {
        let ghost before = padded@;
        padded.push('0');
        proof {
            assert forall|i: int| 0 <= i < padded@.len() implies digit_value(
                #[trigger] padded@[i],
            ) is Some by {
                if i < before.len() {
                    assert(padded@[i] == before[i]);
                }
            }
        }
    }
    proof {
        assert(padded@.take(6) =~= padded@);
        lemma_all_digits_value(padded@);
        if frac.len() >= 6 {
            assert(frac.take(6).take(6) =~= frac.take(6));
        }
    }
    assert(padded@.skip(0) =~= padded@);
    let fraction: u128 = match parse_digits(&padded, 0, 0xFFFF_FFFF_FFFF_FFFF) {
        Some(v) => v,
        None => {
            return None;
        },
    };
    let total: u128 = units * 64 + fraction * 64 / 1_000_000;
    if total <= 0xFFFF_FFFF {
        Some(total as u32)
    } else {
        None
    }
}

/// Appends the last `places` decimal digits of `n`.
pub fn push_fixed_digits(out: &mut String, n: u32, places: u32)
    ensures
        final(out)@ == old(out)@ + fixed_digits(n as nat, places as nat),
    decreases places,
{
    if places == 0 {
        assert(out@ =~= old(out)@ + fixed_digits(n as nat, places as nat));
        return ;
    }
    push_fixed_digits(out, n / 10, places - 1);
    let d: u8 = (n % 10) as u8;
    push_char(out, (0x30 + d) as char);
    assert(out@ =~= old(out)@ + fixed_digits(n as nat, places as nat));
}

/// Appends the digits behind the decimal point for a fraction of `n` parts in ten to the
/// power of `places`, without zeros at the end.
pub fn push_fraction(out: &mut String, n: u32, places: u32)
    ensures
        final(out)@ == old(out)@ + fraction_digits(n as nat, places as nat),
    decreases places,
{
    if places == 0 {
        assert(out@ =~= old(out)@ + fraction_digits(n as nat, places as nat));
    } else if n % 10 == 0 {
        push_fraction(out, n / 10, places - 1);
    } else {
        push_fixed_digits(out, n, places);
    }
}

/// A length of `value` 64ths as a decimal number of whole units: the units, and behind a
/// decimal point the fraction, where there is one.
pub open spec fn decimal_64ths(value: u32) -> Seq<char> {
    if value % 64 == 0 {
        decimal((value / 64) as nat)
    } else {
        decimal((value / 64) as nat).push('.') + fraction_digits(
            ((value % 64) * 15625) as nat,
            6,
        )
    }
}

/// Appends a length of `value` 64ths as a decimal number of whole units.
pub fn push_64ths(out: &mut String, value: u32)
    ensures
        final(out)@ == old(out)@ + decimal_64ths(value),
{
    push_decimal(out, (value / 64) as u64);
    if value % 64 != 0 {
        push_char(out, '.');
        push_fraction(out, (value % 64) * 15625, 6);
    }
    assert(out@ =~= old(out)@ + decimal_64ths(value));
}

/// Ten to the power of `p`.
pub open spec fn pow10(p: nat) -> nat
    decreases p,
{
    if p == 0 {
        1
    } else {
        10 * pow10((p - 1) as nat)
    }
}

/// `count` zeros.
pub open spec fn zeros(count: nat) -> Seq<char> {
    Seq::new(count, |i: int| '0')
}

/// The decimal form of a number is made of digits and writes that number.
pub proof fn lemma_decimal_value(n: nat)
    ensures
        decimal(n).len() >= 1,
        all_digits(decimal(n)),
        digits_value(decimal(n)) == Some(n),
    decreases n,
{
    if n >= 10 {
        lemma_decimal_value(n / 10);
        let head = decimal(n / 10);
        let whole = decimal(n);
        assert(whole.drop_last() =~= head);
        assert forall|i: int| 0 <= i < whole.len() implies digit_value(#[trigger] whole[i]) is Some by {
            if i < head.len() {
                assert(whole[i] == head[i]);
            }
        }
    } else {
        assert forall|i: int| 0 <= i < decimal(n).len() implies digit_value(
            #[trigger] decimal(n)[i],
        ) is Some by {
            assert(i == 0);
        }
    }
}

/// Digits of a fixed number of places write the number below ten to the power of the places.
pub proof fn lemma_fixed_digits_value(n: nat, places: nat)
    requires
        places >= 1,
    ensures
        fixed_digits(n, places).len() == places,
        all_digits(fixed_digits(n, places)),
        digits_value(fixed_digits(n, places)) == Some(n % pow10(places)),
    decreases places,
{
    let whole = fixed_digits(n, places);
    let head = fixed_digits(n / 10, (places - 1) as nat);
    assert(whole.drop_last() =~= head);
    if places == 1 {
        assert(head =~= Seq::<char>::empty());
        assert(pow10(1) == 10) by {
            reveal_with_fuel(pow10, 2);
        }
        assert forall|i: int| 0 <= i < whole.len() implies digit_value(#[trigger] whole[i]) is Some by {
            assert(i == 0);
        }
    } else {
        lemma_fixed_digits_value(n / 10, (places - 1) as nat);
        assert forall|i: int| 0 <= i < whole.len() implies digit_value(#[trigger] whole[i]) is Some by {
            if i < head.len() {
                assert(whole[i] == head[i]);
            }
        }
        let q = pow10((places - 1) as nat);
        assert(q >= 1) by {
            lemma_pow10_positive((places - 1) as nat);
        }
        assert(((n / 10) % q) * 10 + n % 10 == n % (10 * q)) by (nonlinear_arith)
            requires
                q >= 1,
        ;
    }
}

/// Powers of ten are positive.
pub proof fn lemma_pow10_positive(p: nat)
    ensures
        pow10(p) >= 1,
    decreases p,
{
    if p > 0 {
        lemma_pow10_positive((p - 1) as nat);
    }
}

/// The digits of a fraction, with the zeros that were left off put back, are the digits of
/// a fixed number of places.
pub proof fn lemma_fraction_digits_padded(n: nat, places: nat)
    ensures
        fraction_digits(n, places).len() <= places,
        fraction_digits(n, places) + zeros((places - fraction_digits(n, places).len()) as nat)
            == fixed_digits(n, places),
        all_digits(fraction_digits(n, places)),
    decreases places,
{
    let frac = fraction_digits(n, places);
    if places == 0 {
        assert(frac + zeros(0) =~= fixed_digits(n, places));
    } else if n % 10 == 0 {
        lemma_fraction_digits_padded(n / 10, (places - 1) as nat);
        let k = (places - 1 - frac.len()) as nat;
        assert(frac + zeros(k + 1) =~= (frac + zeros(k)).push('0'));
    } else {
        lemma_fixed_digits_value(n, places);
        assert(frac + zeros(0) =~= frac);
    }
}

/// The millionths of at most six digits are the number that the digits write once zeros
/// fill the six places.
pub proof fn lemma_millionths_padded(frac: Seq<char>)
    requires
        frac.len() <= 6,
    ensures
        millionths(frac) == digits_value(frac + zeros((6 - frac.len()) as nat))->0,
    decreases 6 - frac.len(),
{
    if frac.len() == 6 {
        assert(frac + zeros(0) =~= frac);
        assert(frac.take(6) =~= frac);
    } else {
        lemma_millionths_padded(frac.push('0'));
        assert(frac.push('0') + zeros((5 - frac.len()) as nat) =~= frac + zeros(
            (6 - frac.len()) as nat,
        ));
    }
}

/// Digits hold no decimal point: the first one in digits followed by a point, or by
/// nothing, is at their end.
pub proof fn lemma_first_point(digits: Seq<char>, rest: Seq<char>)
    requires
        all_digits(digits),
        rest.len() == 0 || rest[0] == '.',
    ensures
        first_index(digits + rest, '.') == digits.len(),
    decreases digits.len(),
{
    let whole = digits + rest;
    if digits.len() == 0 {
        assert(whole =~= rest);
    } else {
        assert(whole[0] == digits[0]);
        assert(digit_value(digits[0]) is Some);
        assert(whole.drop_first() =~= digits.drop_first() + rest);
        assert forall|i: int| 0 <= i < digits.drop_first().len() implies digit_value(
            #[trigger] digits.drop_first()[i],
        ) is Some by {
            assert(digits.drop_first()[i] == digits[i + 1]);
        }
        lemma_first_point(digits.drop_first(), rest);
    }
}

/// A length that is written in decimal is read back as it was.
pub proof fn lemma_64ths_round_trip(value: u32)
    ensures
        parsed_64ths(decimal_64ths(value)) == Some(value),
{
    let units = (value / 64) as nat;
    let part = ((value % 64) * 15625) as nat;
    let whole = decimal(units);
    let text = decimal_64ths(value);
    lemma_decimal_value(units);
    assert(whole[0] != '+') by {
        assert(digit_value(whole[0]) is Some);
    }
    if value % 64 == 0 {
        assert(text =~= whole + Seq::<char>::empty());
        lemma_first_point(whole, Seq::empty());
        assert(text[0] == whole[0]);
        assert(unsigned_part(text) == text);
        assert(text.take(whole.len() as int) =~= whole);
        assert(millionths(Seq::<char>::empty()) == 0) by {
            lemma_millionths_padded(Seq::<char>::empty());
            lemma_fixed_digits_value(0, 6);
            lemma_fraction_digits_padded(0, 6);
            assert(fraction_digits(0, 6) =~= Seq::<char>::empty()) by {
                reveal_with_fuel(fraction_digits, 7);
            }
            assert(Seq::<char>::empty() + zeros(6) == fixed_digits(0, 6));
            assert(pow10(6) == 1_000_000) by {
                reveal_with_fuel(pow10, 7);
            }
        }
        assert forall|i: int| 0 <= i < Seq::<char>::empty().len() implies digit_value(
            #[trigger] Seq::<char>::empty()[i],
        ) is Some by {}
    } else {
        let frac = fraction_digits(part, 6);
        let rest = seq!['.'] + frac;
        assert(text =~= whole + rest);
        lemma_first_point(whole, rest);
        assert(text[0] == whole[0]);
        assert(unsigned_part(text) == text);
        assert(text.take(whole.len() as int) =~= whole);
        assert(text.skip(whole.len() as int + 1) =~= frac);
        lemma_fraction_digits_padded(part, 6);
        lemma_millionths_padded(frac);
        lemma_fixed_digits_value(part, 6);
        assert(pow10(6) == 1_000_000) by {
            reveal_with_fuel(pow10, 7);
        }
        assert(millionths(frac) == part);
    }
}

} // verus!
