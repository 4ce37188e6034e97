//! Reading the numeric fields of a call site: whole numbers for ids, and
//! microseconds with an optional fraction for times.

use crate::json::{decimal, digit, micros};
use vstd::prelude::*;
use vstd::string::StrSliceExecFns;

verus! {

/// Whether `c` is one of the ten decimal digits.
pub open spec fn is_digit(c: char) -> bool {
    48 <= c as u32 <= 57
}

/// The value of a decimal digit.
pub open spec fn digit_value(c: char) -> nat {
    (c as u32 - 48) as nat
}

/// Whether `s` holds decimal digits only.
pub open spec fn is_digits(s: Seq<char>) -> bool {
    forall|i: int| 0 <= i < s.len() ==> is_digit(#[trigger] s[i])
}

/// The number that a text of decimal digits denotes.
pub open spec fn digits_value(s: Seq<char>) -> nat
    decreases s.len(),
{
    if s.len() == 0 {
        0
    } else {
        digits_value(s.drop_last()) * 10 + digit_value(s.last())
    }
}

/// The length of the longest prefix of `s` that holds digits only.
pub open spec fn digits_end(s: Seq<char>) -> int {
    choose|p: int| is_digits_end(s, p)
}

/// Whether the digits at the head of `s` end at `p`.
pub open spec fn is_digits_end(s: Seq<char>, p: int) -> bool {
    &&& 0 <= p <= s.len()
    &&& is_digits(s.take(p))
    &&& (p == s.len() || !is_digit(s[p]))
}

/// The whole number that `s` denotes: `s` is one or more decimal digits and
/// the number fits in 64 bits.
pub open spec fn number_of(s: Seq<char>) -> Option<u64> {
    if s.len() > 0 && is_digits(s) && digits_value(s) <= u64::MAX {
        Some(digits_value(s) as u64)
    } else {
        None
    }
}

/// The digit at place `i` of a fraction, zero behind its end.
pub open spec fn fraction_digit(f: Seq<char>, i: int) -> nat {
    if i < f.len() {
        digit_value(f[i])
    } else {
        0
    }
}

/// The nanoseconds that the fraction of a microsecond denotes. Digits behind
/// the third are below a nanosecond and do not count.
pub open spec fn fraction_nanos(f: Seq<char>) -> nat {
    fraction_digit(f, 0) * 100 + fraction_digit(f, 1) * 10 + fraction_digit(f, 2)
}

/// The nanoseconds that a time in microseconds denotes. The text is one or
/// more digits, and then either nothing or a point and one or more digits.
pub open spec fn time_nanos(s: Seq<char>) -> Option<nat> {
    let p = digits_end(s);
    if p == 0 {
        None
    } else if p == s.len() {
        Some(digits_value(s) * 1000)
    } else if s[p] == '.' && p + 1 < s.len() && is_digits(s.skip(p + 1)) {
        Some(digits_value(s.take(p)) * 1000 + fraction_nanos(s.skip(p + 1)))
    } else {
        None
    }
}

/// The time that `s` denotes, where it is well formed and fits in 64 bits.
pub open spec fn time_of(s: Seq<char>) -> Option<u64> {
    match time_nanos(s) {
        Some(n) => if n <= u64::MAX {
            Some(n as u64)
        } else {
            None
        },
        None => None,
    }
}

/// The digits at the head of a text end at one place only.
pub proof fn lemma_digits_end_unique(s: Seq<char>, p: int)
    requires
        is_digits_end(s, p),
    ensures
        digits_end(s) == p,
{
    let q = digits_end(s);
    assert(is_digits_end(s, q));
    if q < p {
        assert(s.take(p)[q] == s[q]);
    } else if p < q {
        assert(s.take(q)[p] == s[p]);
    }
}

/// The digit that `c` stands for, if it is one.
pub fn digit_of(c: char) -> (r: Option<u64>)
    ensures
        r is Some <==> is_digit(c),
        r matches Some(d) ==> d == digit_value(c) && d < 10,
{
    let u: u32 = c as u32;
    if 48 <= u && u <= 57 {
        let d: u64 = (u - 48) as u64;
        Some(d)
    } else {
        None
    }
}

/// Reads the digits at the head of `s`. The first component is the place
/// where they end, the second their value where it fits in 64 bits.
pub fn leading_number(s: &str) -> (r: (usize, Option<u64>))
    ensures
        r.0 == digits_end(s@),
        is_digits_end(s@, r.0 as int),
        r.1 is Some <==> digits_value(s@.take(r.0 as int)) <= u64::MAX,
        r.1 matches Some(v) ==> v == digits_value(s@.take(r.0 as int)),
{
    let n = s.unicode_len();
    let mut i: usize = 0;
    let mut acc: Option<u64> = Some(0);
    assert(s@.take(0) =~= Seq::<char>::empty());
    while i < n
        invariant
            n == s@.len(),
            i <= n,
            is_digits(s@.take(i as int)),
            acc is Some <==> digits_value(s@.take(i as int)) <= u64::MAX,
            acc matches Some(v) ==> v == digits_value(s@.take(i as int)),
        decreases n - i,
    {
        let c = s.get_char(i);
        let d = match digit_of(c) {
            Some(d) => d,
            None => {
                proof {
                    lemma_digits_end_unique(s@, i as int);
                }
                return (i, acc);
            },
        };
        proof {
            assert(s@.take(i + 1).drop_last() =~= s@.take(i as int));
            assert(s@.take(i + 1).last() == c);
            assert forall|j: int| 0 <= j < i + 1 implies is_digit(#[trigger] s@.take(i + 1)[j]) by {
                if j < i {
                    assert(s@.take(i as int)[j] == s@.take(i + 1)[j]);
                }
            }
        }
        acc = match acc {
            Some(v) => if v <= (u64::MAX - d) / 10 {
                Some(v * 10 + d)
            } else {
                None
            },
            None => None,
        };
        i += 1;
    }
    proof {
        lemma_digits_end_unique(s@, i as int);
    }
    (i, acc)
}

/// Reads a whole number: one or more decimal digits, nothing else, with a
/// value that fits in 64 bits.
pub fn parse_number(s: &str) -> (r: Option<u64>)
    ensures
        r == number_of(s@),
{
    let n = s.unicode_len();
    let (p, v) = leading_number(s);
    if n > 0 && p == n {
        proof {
            assert(s@.take(n as int) =~= s@);
        }
        v
    } else {
        proof {
            if n > 0 {
                assert(!is_digit(s@[p as int]));
            }
        }
        None
    }
}

/// Reads the first three digits of the fraction that starts at `from`, and
/// checks that only digits follow up to the end of `s`.
fn fraction_at(s: &str, from: usize) -> (r: Option<u64>)
    requires
        from <= s@.len(),
    ensures
        r is Some <==> is_digits(s@.skip(from as int)),
        r matches Some(v) ==> v == fraction_nanos(s@.skip(from as int)) && v < 1000,
{
    let n = s.unicode_len();
    let ghost f = s@.skip(from as int);
    let mut i: usize = from;
    let mut d0: u64 = 0;
    let mut d1: u64 = 0;
    let mut d2: u64 = 0;
    while i < n
        invariant
            n == s@.len(),
            from <= i <= n,
            f == s@.skip(from as int),
            forall|j: int| 0 <= j < i - from ==> is_digit(#[trigger] f[j]),
            d0 == (if i - from > 0 {
                fraction_digit(f, 0)
            } else {
                0
            }),
            d1 == (if i - from > 1 {
                fraction_digit(f, 1)
            } else {
                0
            }),
            d2 == (if i - from > 2 {
                fraction_digit(f, 2)
            } else {
                0
            }),
            d0 < 10,
            d1 < 10,
            d2 < 10,
        decreases n - i,
    {
        let c = s.get_char(i);
        assert(f[i - from] == c);
        match digit_of(c) {
            Some(d) => {
                if i - from == 0 {
                    d0 = d;
                } else if i - from == 1 {
                    d1 = d;
                } else if i - from == 2 {
                    d2 = d;
                }
            },
            None => {
                return None;
            },
        }
        i += 1;
    }
    Some(d0 * 100 + d1 * 10 + d2)
}

/// Reads a time in microseconds as nanoseconds: one or more digits, then
/// either nothing or a point and one or more digits, of which the first three
/// count. `None` for any other text and for a time that does not fit in 64
/// bits.
pub fn parse_time(s: &str) -> (r: Option<u64>)
    ensures
        r == time_of(s@),
{
    let n = s.unicode_len();
    let (p, whole) = leading_number(s);
    if p == 0 {
        return None;
    }
    let nanos: u64 = if p == n {
        proof {
            assert(s@.take(n as int) =~= s@);
        }
        0
    } else if s.get_char(p) == '.' && p + 1 < n {
        match fraction_at(s, p + 1) {
            Some(v) => v,
            None => {
                return None;
            },
        }
    } else {
        return None;
    };
    match whole {
        Some(w) => if w <= (u64::MAX - nanos) / 1000 {
            Some(w * 1000 + nanos)
        } else {
            None
        },
        None => None,
    }
}

/// A digit's character reads as that digit.
pub proof fn lemma_digit_reads_back(d: int)
    requires
        0 <= d < 10,
    ensures
        is_digit(digit(d)),
        digit_value(digit(d)) == d,
{
}

/// A number written in decimal is one or more digits whose value is the
/// number.
pub proof fn lemma_decimal_reads_back(n: nat)
    ensures
        decimal(n).len() > 0,
        is_digits(decimal(n)),
        digits_value(decimal(n)) == n,
    decreases n,
{
    if n < 10 {
        lemma_digit_reads_back(n as int);
        assert(decimal(n).drop_last() =~= Seq::<char>::empty());
        assert(digits_value(decimal(n).drop_last()) == 0);
    } else {
        lemma_decimal_reads_back(n / 10);
        lemma_digit_reads_back((n % 10) as int);
        assert(decimal(n).drop_last() =~= decimal(n / 10));
        assert(decimal(n).last() == digit((n % 10) as int));
    }
}

/// A whole number that is written and then read is itself.
pub proof fn lemma_number_round_trip(n: u64)
    ensures
        number_of(decimal(n as nat)) == Some(n),
{
    lemma_decimal_reads_back(n as nat);
}

/// The three digits behind the point are the nanoseconds below a whole
/// microsecond.
proof fn lemma_last_three_digits(ns: u64)
    ensures
        (ns / 100 % 10) * 100 + (ns / 10 % 10) * 10 + ns % 10 == ns % 1000,
        (ns / 1000) * 1000 + ns % 1000 == ns,
        0 <= ns / 100 % 10 < 10,
        0 <= ns / 10 % 10 < 10,
        0 <= ns % 10 < 10,
{
    let n = ns as int;
    let a = n / 10;
    let b = a / 10;
    let c = b / 10;
    assert(n == 10 * a + n % 10);
    assert(a == 10 * b + a % 10);
    assert(b == 10 * c + b % 10);
    assert(n / 100 == b) by {
        assert(100 * b <= n < 100 * b + 100);
    }
    assert(n / 1000 == c) by {
        assert(1000 * c <= n < 1000 * c + 1000);
    }
    assert(n % 1000 == n - 1000 * c);
}

/// The text of a time splits at its point: digits before it, three digits
/// behind it.
proof fn lemma_micros_parts(ns: u64)
    ensures
        ({
            let m = micros(ns);
            let p = decimal((ns / 1000) as nat).len() as int;
            &&& m.len() == p + 4
            &&& m.take(p) == decimal((ns / 1000) as nat)
            &&& m[p] == '.'
            &&& m.skip(p + 1) == seq![
                digit((ns / 100 % 10) as int),
                digit((ns / 10 % 10) as int),
                digit((ns % 10) as int),
            ]
        }),
{
    let m = micros(ns);
    let p = decimal((ns / 1000) as nat).len() as int;
    assert(m.take(p) =~= decimal((ns / 1000) as nat));
    assert(m.skip(p + 1) =~= seq![
        digit((ns / 100 % 10) as int),
        digit((ns / 10 % 10) as int),
        digit((ns % 10) as int),
    ]);
}

/// A time that is written in microseconds and then read is itself, to the
/// nanosecond.
pub proof fn lemma_time_round_trip(ns: u64)
    ensures
        time_of(micros(ns)) == Some(ns),
{
    let whole = decimal((ns / 1000) as nat);
    let d0 = (ns / 100 % 10) as int;
    let d1 = (ns / 10 % 10) as int;
    let d2 = (ns % 10) as int;
    let m = micros(ns);
    let p = whole.len() as int;
    let f = m.skip(p + 1);
    lemma_last_three_digits(ns);
    lemma_micros_parts(ns);
    lemma_decimal_reads_back((ns / 1000) as nat);
    lemma_digit_reads_back(d0);
    lemma_digit_reads_back(d1);
    lemma_digit_reads_back(d2);
    assert(is_digits_end(m, p)) by {
        assert(!is_digit('.'));
    }
    lemma_digits_end_unique(m, p);
    assert(is_digits(f));
    assert(fraction_nanos(f) == d0 * 100 + d1 * 10 + d2);
    assert(time_nanos(m) == Some((digits_value(whole) * 1000 + fraction_nanos(f)) as nat));
}

} // verus!
