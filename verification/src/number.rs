//! Decimal numbers read from text into fixed-point integers.

use vstd::prelude::*;
use vstd::arithmetic::div_mod::{lemma_basic_div, lemma_fundamental_div_mod_converse};
use crate::text::{chars_of, find_between, first_index};

verus! {

/// How many fixed-point units make one whole unit: amounts are counted in thousandths.
pub const SCALE: u64 = 1000;

/// Half of one whole unit.
pub const HALF: u64 = 500;

/// Whether `c` is one of the ten decimal digits.
pub open spec fn is_digit(c: char) -> bool {
    '0' <= c <= '9'
}

/// The number that the digit `c` writes.
pub open spec fn digit_of(c: char) -> nat {
    (c as u32 - '0' as u32) as nat
}

/// Whether every character of `s` is a digit.
pub open spec fn all_digits(s: Seq<char>) -> bool {
    forall|i: int| 0 <= i < s.len() ==> is_digit(#[trigger] s[i])
}

/// The number that a run of decimal digits writes, the empty run writing zero.
pub open spec fn digits_value(s: Seq<char>) -> nat
    decreases s.len(),
{
    if s.len() == 0 {
        0
    } else {
        digits_value(s.drop_last()) * 10 + digit_of(s.last())
    }
}

/// `v` where it is present and at most `max`.
pub open spec fn within(v: Option<nat>, max: u64) -> Option<u64> {
    match v {
        Some(n) => if n <= max {
            Some(n as u64)
        } else {
            None
        },
        None => None,
    }
}

/// The value of a run of digits, where every character is one.
pub open spec fn digit_run(s: Seq<char>) -> Option<nat> {
    if all_digits(s) {
        Some(digits_value(s))
    } else {
        None
    }
}

/// Appending digits never makes the written number smaller.
pub proof fn lemma_digits_value_grows(s: Seq<char>, k: int)
    requires
        0 <= k <= s.len(),
    ensures
        digits_value(s.take(k)) <= digits_value(s),
    decreases s.len(),
{
    if k < s.len() {
        assert(s.drop_last().take(k) =~= s.take(k));
        lemma_digits_value_grows(s.drop_last(), k);
    } else {
        assert(s.take(k) =~= s);
    }
}

/// Reads the digits of `v` from `from` up to `to`, giving up above `max`.
pub fn read_digits(v: &Vec<char>, from: usize, to: usize, max: u64) -> (r: Option<u64>)
    requires
        from <= to <= v@.len(),
    ensures
        r == within(digit_run(v@.subrange(from as int, to as int)), max),
{
    let ghost run = v@.subrange(from as int, to as int);
    let mut acc: u128 = 0;
    let mut i: usize = from;
    while i < to
        invariant
            from <= i <= to <= v@.len(),
            run == v@.subrange(from as int, to as int),
            all_digits(run.take(i - from)),
            acc == digits_value(run.take(i - from)),
            acc <= max,
        decreases to - i,
    {
        let c: char = v[i];
        assert(run[i - from] == c);
        if c < '0' || c > '9' {
            return None;
        }
        let d: u128 = (c as u32 - '0' as u32) as u128;
        let ghost next = run.take(i - from + 1);
        assert(next.drop_last() =~= run.take(i - from));
        acc = acc * 10 + d;
        if acc > max as u128 {
            proof {
                lemma_digits_value_grows(run, i - from + 1);
            }
            return None;
        }
        i += 1;
    }
    assert(run.take(i - from) =~= run);
    Some(acc as u64)
}

/// Whether the characters of `v` from `from` up to `to` are all digits.
pub fn only_digits(v: &Vec<char>, from: usize, to: usize) -> (r: bool)
    requires
        from <= to <= v@.len(),
    ensures
        r == all_digits(v@.subrange(from as int, to as int)),
{
    let ghost run = v@.subrange(from as int, to as int);
    let mut i: usize = from;
    while i < to
        invariant
            from <= i <= to <= v@.len(),
            run == v@.subrange(from as int, to as int),
            forall|j: int| 0 <= j < i - from ==> is_digit(#[trigger] run[j]),
        decreases to - i,
    {
        let c: char = v[i];
        assert(run[i - from] == c);
        if c < '0' || c > '9' {
            return false;
        }
        i += 1;
    }
    true
}

/// The text behind an optional leading plus sign.
pub open spec fn unsigned_body(s: Seq<char>) -> Seq<char> {
    if s.len() > 0 && s[0] == '+' {
        s.drop_first()
    } else {
        s
    }
}

/// The whole number that `s` writes: an optional plus sign, then one or more digits.
pub open spec fn unsigned_of(s: Seq<char>) -> Option<nat> {
    let body = unsigned_body(s);
    if body.len() > 0 {
        digit_run(body)
    } else {
        None
    }
}

/// Reads a whole number that is at most `max`.
pub fn parse_unsigned(s: &str, max: u64) -> (r: Option<u64>)
    ensures
        r == within(unsigned_of(s@), max),
{
    let v = chars_of(s);
    let start: usize = if v.len() > 0 && v[0] == '+' {
        1
    } else {
        0
    };
    assert(v@.subrange(start as int, v@.len() as int) =~= unsigned_body(s@));
    if start == v.len() {
        return None;
    }
    read_digits(&v, start, v.len(), max)
}

/// Ten to the power `n`.
pub open spec fn pow10(n: nat) -> nat
    decreases n,
{
    if n == 0 {
        1
    } else {
        10 * pow10((n - 1) as nat)
    }
}

/// `m` times ten to the power `k`, rounded down.
pub open spec fn shifted(m: nat, k: int) -> nat {
    if k >= 0 {
        m * pow10(k as nat)
    } else {
        m / pow10((-k) as nat)
    }
}

/// Whether `c` is a plus or a minus sign.
pub open spec fn is_sign(c: char) -> bool {
    c == '+' || c == '-'
}

/// The text behind an optional leading sign.
pub open spec fn signed_body(s: Seq<char>) -> Seq<char> {
    if s.len() > 0 && is_sign(s[0]) {
        s.drop_first()
    } else {
        s
    }
}

/// Whether `s` begins with a minus sign.
pub open spec fn has_minus(s: Seq<char>) -> bool {
    s.len() > 0 && s[0] == '-'
}

/// Where the exponent mark of `body` stands, an `e` or an `E`, or the length of `body`
/// where it has none.
pub open spec fn exponent_at(body: Seq<char>) -> int {
    if first_index(body, 'e') <= first_index(body, 'E') {
        first_index(body, 'e')
    } else {
        first_index(body, 'E')
    }
}

/// What of `body` stands before its exponent mark.
pub open spec fn mantissa(body: Seq<char>) -> Seq<char> {
    body.take(exponent_at(body))
}

/// The exponent that `body` writes behind its exponent mark: an optional sign, then one
/// or more digits. Without a mark the exponent is zero.
pub open spec fn exponent_of(body: Seq<char>) -> Option<int> {
    if exponent_at(body) >= body.len() {
        Some(0)
    } else {
        let text = body.skip(exponent_at(body) + 1);
        let digits = signed_body(text);
        if exponent_reads(text) {
            if has_minus(text) {
                Some(-(digits_value(digits) as int))
            } else {
                Some(digits_value(digits) as int)
            }
        } else {
            None
        }
    }
}

/// The digits before the point of a mantissa.
pub open spec fn whole_part(mantissa: Seq<char>) -> Seq<char> {
    mantissa.take(first_index(mantissa, '.'))
}

/// The digits behind the point of a mantissa, none where it has no point.
pub open spec fn frac_part(mantissa: Seq<char>) -> Seq<char> {
    if first_index(mantissa, '.') < mantissa.len() {
        mantissa.skip(first_index(mantissa, '.') + 1)
    } else {
        Seq::empty()
    }
}

/// The amount that `s` writes as a decimal number, in thousandths, rounded down.
///
/// The notation is an optional sign, digits with at most one point among them and at
/// least one digit in all, and optionally an exponent: `12`, `2.7`, `.5`, `3.`, `1e3`
/// and `2.5E-1` are amounts. A minus sign is taken only before a zero; `inf` and `NaN`
/// are no amounts.
pub open spec fn thousandths_of(s: Seq<char>) -> Option<nat> {
    let body = signed_body(s);
    let frac = frac_part(mantissa(body));
    let written = digits_value(whole_part(mantissa(body)) + frac);
    if mantissa_reads(mantissa(body)) && exponent_of(body) is Some && (has_minus(s) ==> written
        == 0) {
        Some(shifted(written, exponent_of(body)->0 + 3 - frac.len()))
    } else {
        None
    }
}

/// No power of ten is zero.
pub proof fn lemma_pow10_positive(n: nat)
    ensures
        pow10(n) >= 1,
    decreases n,
{
    if n > 0 {
        lemma_pow10_positive((n - 1) as nat);
    }
}

/// A higher power of ten is not smaller.
pub proof fn lemma_pow10_grows(a: nat, b: nat)
    requires
        a <= b,
    ensures
        pow10(a) <= pow10(b),
    decreases b,
{
    if a < b {
        lemma_pow10_grows(a, (b - 1) as nat);
        lemma_pow10_positive((b - 1) as nat);
    }
}

/// A run of digits writes less than ten to the power of its length.
pub proof fn lemma_digits_value_bound(s: Seq<char>)
    requires
        all_digits(s),
    ensures
        digits_value(s) < pow10(s.len()),
    decreases s.len(),
{
    if s.len() > 0 {
        assert forall|i: int| 0 <= i < s.drop_last().len() implies is_digit(
            #[trigger] s.drop_last()[i],
        ) by {}
        lemma_digits_value_bound(s.drop_last());
    }
}

/// What a run of digits writes, by what its first `n` digits and its other digits write.
pub proof fn lemma_digits_value_split(s: Seq<char>, n: int)
    requires
        0 <= n <= s.len(),
    ensures
        digits_value(s) == digits_value(s.take(n)) * pow10((s.len() - n) as nat) + digits_value(
            s.skip(n),
        ),
    decreases s.len(),
{
    if n == s.len() {
        assert(s.take(n) =~= s);
        assert(digits_value(s) * 1 + 0 == digits_value(s));
    } else {
        let front = s.drop_last();
        lemma_digits_value_split(front, n);
        assert(front.take(n) =~= s.take(n));
        assert(s.skip(n).drop_last() =~= front.skip(n));
        let high = digits_value(s.take(n));
        let power = pow10((front.len() - n) as nat);
        let low = digits_value(front.skip(n));
        let last = digit_of(s.last());
        assert((high * power + low) * 10 + last == high * (10 * power) + (low * 10 + last))
            by (nonlinear_arith);
    }
}

/// Moving the point to the left over digits drops them.
pub proof fn lemma_shift_down(s: Seq<char>, n: int)
    requires
        all_digits(s),
        0 <= n <= s.len(),
    ensures
        shifted(digits_value(s), n - s.len()) == digits_value(s.take(n)),
{
    let rest = s.skip(n);
    assert forall|i: int| 0 <= i < rest.len() implies is_digit(#[trigger] rest[i]) by {}
    lemma_digits_value_split(s, n);
    lemma_digits_value_bound(rest);
    let power = pow10((s.len() - n) as nat);
    if n < s.len() {
        lemma_fundamental_div_mod_converse(
            digits_value(s) as int,
            power as int,
            digits_value(s.take(n)) as int,
            digits_value(rest) as int,
        );
    } else {
        assert(s.take(n) =~= s);
    }
}

/// Moving the point to the left past all the digits leaves nothing.
pub proof fn lemma_shift_away(s: Seq<char>, k: int)
    requires
        all_digits(s),
        s.len() > 0,
        k <= -s.len(),
    ensures
        shifted(digits_value(s), k) == 0,
{
    lemma_digits_value_bound(s);
    lemma_pow10_grows(s.len(), (-k) as nat);
    lemma_basic_div(digits_value(s) as int, pow10((-k) as nat) as int);
}

/// Ten to the power 19, written out.
pub proof fn lemma_pow10_19()
    ensures
        pow10(19) == 10_000_000_000_000_000_000,
{
    reveal_with_fuel(pow10, 20);
}

/// A run of digits that writes more than `u64::MAX` has at least twenty digits.
pub proof fn lemma_beyond_u64(s: Seq<char>)
    requires
        all_digits(s),
        digits_value(s) > 0xffff_ffff_ffff_ffff,
    ensures
        s.len() >= 20,
{
    lemma_digits_value_bound(s);
    if s.len() <= 19 {
        lemma_pow10_grows(s.len(), 19);
        lemma_pow10_19();
    }
}

/// An amount that is not nothing, with the point moved twenty places or more to the
/// right, is beyond `u64::MAX`.
pub proof fn lemma_shift_beyond_u64(m: nat, k: int)
    requires
        m >= 1,
        k >= 20,
    ensures
        shifted(m, k) > 0xffff_ffff_ffff_ffff,
{
    lemma_pow10_grows(20, k as nat);
    lemma_pow10_19();
    assert(m * pow10(k as nat) >= pow10(k as nat)) by (nonlinear_arith)
        requires
            m >= 1,
    ;
}

/// Nothing stays nothing wherever the point is moved.
pub proof fn lemma_shift_nothing(k: int)
    ensures
        shifted(0, k) == 0,
{
    if k < 0 {
        lemma_pow10_positive((-k) as nat);
        lemma_basic_div(0, pow10((-k) as nat) as int);
    }
}

/// Moving the point further to the right makes no amount smaller.
pub proof fn lemma_shift_grows(m: nat, a: int, b: int)
    requires
        0 <= a <= b,
    ensures
        shifted(m, a) <= shifted(m, b),
{
    lemma_pow10_grows(a as nat, b as nat);
    assert(m * pow10(a as nat) <= m * pow10(b as nat)) by (nonlinear_arith)
        requires
            pow10(a as nat) <= pow10(b as nat),
    ;
}

/// The characters of `v` from `a` up to `b`, then those from `c` up to `d`.
fn join(v: &Vec<char>, a: usize, b: usize, c: usize, d: usize) -> (r: Vec<char>)
    requires
        a <= b <= c <= d <= v@.len(),
    ensures
        r@ == v@.subrange(a as int, b as int) + v@.subrange(c as int, d as int),
{
    let mut out: Vec<char> = Vec::new();
    let mut i: usize = a;
    while i < b
        invariant
            a <= i <= b <= v@.len(),
            out@ == v@.subrange(a as int, i as int),
        decreases b - i,
    {
        out.push(v[i]);
        i += 1;
    }
    let mut j: usize = c;
    while j < d
        invariant
            a <= b <= c <= j <= d <= v@.len(),
            out@ == v@.subrange(a as int, b as int) + v@.subrange(c as int, j as int),
        decreases d - j,
    {
        out.push(v[j]);
        j += 1;
    }
    out
}

/// What the digits write with the point moved `k` places to the right, where that is at
/// most `max`.
fn shift(digits: &Vec<char>, k: i128, max: u64) -> (r: Option<u64>)
    requires
        all_digits(digits@),
        digits@.len() > 0,
        -0x2_0000_0000_0000_0000 <= k <= 0x2_0000_0000_0000_0000,
    ensures
        r == within(Some(shifted(digits_value(digits@), k as int)), max),
{
    let ghost written = digits_value(digits@);
    let len: i128 = digits.len() as i128;
    let point: i128 = len + k;
    if point <= 0 {
        proof {
            lemma_shift_away(digits@, k as int);
        }
        return Some(0);
    }
    if point <= len {
        proof {
            lemma_shift_down(digits@, point as int);
            assert forall|i: int| 0 <= i < point implies is_digit(
                #[trigger] digits@.take(point as int)[i],
            ) by {}
        }
        return read_digits(digits, 0, point as usize, max);
    }
    assert(digits@.subrange(0, len as int) =~= digits@);
    proof {
        lemma_shift_grows(written, 0, k as int);
        assert(shifted(written, 0) == written) by {
            assert(written * 1 == written);
        }
    }
    let mut acc: u64 = match read_digits(digits, 0, digits.len(), max) {
        Some(acc) => acc,
        None => {
            return None;
        },
    };
    if acc == 0 {
        proof {
            lemma_shift_nothing(k as int);
        }
        return Some(0);
    }
    let mut j: i128 = 0;
    while j < k
        invariant
            0 <= j <= k,
            written == digits_value(digits@),
            acc == shifted(written, j as int),
            acc <= max,
        decreases k - j,
    {
        proof {
            lemma_shift_grows(written, j + 1, k as int);
            assert(written * pow10((j + 1) as nat) == 10 * (written * pow10(j as nat)))
                by (nonlinear_arith)
                requires
                    pow10((j + 1) as nat) == 10 * pow10(j as nat),
            ;
        }
        if acc > max / 10 {
            return None;
        }
        acc = acc * 10;
        j += 1;
    }
    Some(acc)
}

/// Whether a mantissa is written well: digits with at most one point among them, and at
/// least one digit.
pub open spec fn mantissa_reads(mantissa: Seq<char>) -> bool {
    &&& whole_part(mantissa).len() + frac_part(mantissa).len() > 0
    &&& all_digits(whole_part(mantissa))
    &&& all_digits(frac_part(mantissa))
}

/// Reads the mantissa in `v` from `from` up to `to`: its digits without the point, and
/// how many of them stand behind the point.
fn read_mantissa(v: &Vec<char>, from: usize, to: usize) -> (r: Option<(Vec<char>, usize)>)
    requires
        from <= to <= v@.len(),
    ensures
        match r {
            Some((digits, behind)) => {
                let mantissa = v@.subrange(from as int, to as int);
                &&& mantissa_reads(mantissa)
                &&& digits@ == whole_part(mantissa) + frac_part(mantissa)
                &&& behind == frac_part(mantissa).len()
                &&& all_digits(digits@)
                &&& 0 < digits@.len() <= to - from
                &&& behind <= digits@.len()
            },
            None => !mantissa_reads(v@.subrange(from as int, to as int)),
        },
{
    let ghost mantissa = v@.subrange(from as int, to as int);
    let ghost whole = whole_part(mantissa);
    let ghost frac = frac_part(mantissa);
    let p: usize = find_between(v, from, to, '.');
    let q: usize = if p < to {
        p + 1
    } else {
        p
    };
    assert(v@.subrange(from as int, p as int) =~= whole);
    assert(v@.subrange(q as int, to as int) =~= frac);
    if (p - from) + (to - q) == 0 {
        return None;
    }
    if !only_digits(v, from, p) || !only_digits(v, q, to) {
        return None;
    }
    let digits = join(v, from, p, q, to);
    assert forall|i: int| 0 <= i < digits@.len() implies is_digit(#[trigger] digits@[i]) by {}
    Some((digits, to - q))
}

/// Whether an exponent is written well: an optional sign, then one or more digits.
pub open spec fn exponent_reads(text: Seq<char>) -> bool {
    signed_body(text).len() > 0 && all_digits(signed_body(text))
}

/// Reads the exponent that `v` writes from `from` on: whether it is negative, and its
/// size where that is at most `u64::MAX`.
fn read_exponent(v: &Vec<char>, from: usize) -> (r: Option<(bool, Option<u64>)>)
    requires
        from <= v@.len(),
    ensures
        match r {
            Some((down, size)) => {
                let text = v@.skip(from as int);
                &&& exponent_reads(text)
                &&& down == has_minus(text)
                &&& size == within(Some(digits_value(signed_body(text))), 0xffff_ffff_ffff_ffff)
            },
            None => !exponent_reads(v@.skip(from as int)),
        },
{
    let len: usize = v.len();
    let ghost text = v@.skip(from as int);
    let d: usize = if from < len && (v[from] == '+' || v[from] == '-') {
        from + 1
    } else {
        from
    };
    let down: bool = from < len && v[from] == '-';
    assert(v@.subrange(d as int, len as int) =~= signed_body(text));
    if d == len || !only_digits(v, d, len) {
        return None;
    }
    Some((down, read_digits(v, d, len, 0xffff_ffff_ffff_ffff)))
}

/// Reads an amount written as a decimal number that is at most `max` thousandths.
pub fn parse_decimal(s: &str, max: u64) -> (r: Option<u64>)
    ensures
        r == within(thousandths_of(s@), max),
{
    let v = chars_of(s);
    let len: usize = v.len();
    let start: usize = if len > 0 && (v[0] == '+' || v[0] == '-') {
        1
    } else {
        0
    };
    let minus: bool = len > 0 && v[0] == '-';
    let ghost body = signed_body(s@);
    assert(v@.subrange(start as int, len as int) =~= body);
    let lower: usize = find_between(&v, start, len, 'e');
    let upper: usize = find_between(&v, start, len, 'E');
    let x: usize = if lower <= upper {
        lower
    } else {
        upper
    };
    assert(v@.subrange(start as int, x as int) =~= mantissa(body));
    let (digits, behind) = match read_mantissa(&v, start, x) {
        Some(mantissa) => mantissa,
        None => {
            return None;
        },
    };
    let (down, size) = if x < len {
        assert(v@.skip(x + 1) =~= body.skip(exponent_at(body) + 1));
        match read_exponent(&v, x + 1) {
            Some(exponent) => exponent,
            None => {
                return None;
            },
        }
    } else {
        (false, Some(0u64))
    };
    assert(digits@.subrange(0, digits@.len() as int) =~= digits@);
    let nothing: bool = read_digits(&digits, 0, digits.len(), 0).is_some();
    if minus && !nothing {
        return None;
    }
    let ghost k = exponent_of(body)->0 + 3 - behind;
    match size {
        Some(size) => {
            let e: i128 = if down {
                -(size as i128)
            } else {
                size as i128
            };
            shift(&digits, e + 3 - behind as i128, max)
        },
        None => {
            // The exponent is beyond any length of text: it takes an amount to
            // nothing, or beyond every bound.
            proof {
                let text = body.skip(exponent_at(body) + 1);
                lemma_beyond_u64(signed_body(text));
                if down {
                    lemma_shift_away(digits@, k);
                } else if nothing {
                    lemma_shift_nothing(k);
                } else {
                    lemma_shift_beyond_u64(digits_value(digits@), k);
                }
            }
            if down || nothing {
                Some(0)
            } else {
                None
            }
        },
    }
}

/// The whole units nearest to `v` thousandths; a half goes up.
pub open spec fn rounded(v: u64) -> nat {
    ((v + HALF) / SCALE as int) as nat
}

/// Rounds thousandths to the nearest whole unit; a half goes up.
pub fn round_units(v: u64) -> (r: u64)
    ensures
        r == rounded(v),
{
    let up: u64 = if v % SCALE >= HALF {
        1
    } else {
        0
    };
    v / SCALE + up
}

} // verus!
