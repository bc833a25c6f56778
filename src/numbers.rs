//! Decimal numerals and the word-length ("poetic") encoding of numbers.

use vstd::prelude::*;
use vstd::arithmetic::power::pow;

verus! {

/// The number whose decimal digits, most significant first, are `ds`.
pub open spec fn decimal(ds: Seq<int>) -> int
    decreases ds.len(),
{
    if ds.len() == 0 {
        0
    } else {
        decimal(ds.drop_last()) * 10 + ds.last()
    }
}

pub open spec fn digits_ok(ds: Seq<int>) -> bool {
    forall|i: int| 0 <= i < ds.len() ==> 0 <= #[trigger] ds[i] <= 9
}

pub proof fn lemma_decimal_nonneg(ds: Seq<int>)
    requires
        digits_ok(ds),
    ensures
        decimal(ds) >= 0,
    decreases ds.len(),
{
    if ds.len() > 0 {
        lemma_decimal_nonneg(ds.drop_last());
    }
}

/// A longer digit sequence never has a smaller value.
pub proof fn lemma_decimal_grows(ds: Seq<int>, i: int)
    requires
        digits_ok(ds),
        0 <= i <= ds.len(),
    ensures
        decimal(ds.subrange(0, i)) <= decimal(ds),
    decreases ds.len(),
{
    if i < ds.len() {
        let d = ds.drop_last();
        assert(d.subrange(0, i) =~= ds.subrange(0, i));
        lemma_decimal_grows(d, i);
        lemma_decimal_nonneg(d);
    } else {
        assert(ds.subrange(0, i) =~= ds);
    }
}

/// 2^127: the largest magnitude that an `i128` holds (as a negative number).
pub const MAGNITUDE_LIMIT: u128 = 170141183460469231731687303715884105728;

pub open spec fn digits_view(v: Seq<u8>) -> Seq<int> {
    v.map_values(|d: u8| d as int)
}

/// The value of decimal digits, or `None` when it exceeds 2^127.
pub fn decimal_value(ds: &Vec<u8>) -> (r: Option<u128>)
    requires
        digits_ok(digits_view(ds@)),
    ensures
        r matches Some(v) ==> v == decimal(digits_view(ds@)) && v <= MAGNITUDE_LIMIT,
        r is None ==> decimal(digits_view(ds@)) > MAGNITUDE_LIMIT,
{
    let ghost all = digits_view(ds@);
    let mut m: u128 = 0;
    let mut i: usize = 0;
    while i < ds.len()
        invariant
            i <= ds@.len(),
            all == digits_view(ds@),
            digits_ok(all),
            m == decimal(all.subrange(0, i as int)),
            m <= MAGNITUDE_LIMIT,
        decreases ds@.len() - i,
    {
        let d = ds[i];
        assert(all.subrange(0, i + 1).drop_last() =~= all.subrange(0, i as int));
        assert(all[i as int] == d as int);
        if m > 17014118346046923173168730371588410572 {
            proof {
                lemma_decimal_grows(all, i + 1);
            }
            return None;
        }
        let n = m * 10 + d as u128;
        if n > MAGNITUDE_LIMIT {
            proof {
                lemma_decimal_grows(all, i + 1);
            }
            return None;
        }
        m = n;
        i = i + 1;
    }
    assert(all.subrange(0, i as int) =~= all);
    Some(m)
}

pub open spec fn is_digit(c: char) -> bool {
    '0' <= c && c <= '9'
}

pub open spec fn digit_of(c: char) -> int {
    c as int - '0' as int
}

pub open spec fn digit_values(t: Seq<char>) -> Seq<int> {
    t.map_values(|c: char| digit_of(c))
}

pub open spec fn all_digits(t: Seq<char>) -> bool {
    forall|i: int| 0 <= i < t.len() ==> is_digit(#[trigger] t[i])
}

/// A numeral as `i128` reads it: an optional sign, then one or more ASCII
/// digits, and the value within the range of `i128`.
pub open spec fn numeral_value(t: Seq<char>) -> Option<int> {
    let neg = t.len() > 0 && t[0] == '-';
    let start = if t.len() > 0 && (t[0] == '-' || t[0] == '+') {
        1int
    } else {
        0int
    };
    let body = t.subrange(start, t.len() as int);
    if body.len() > 0 && all_digits(body) {
        let m = decimal(digit_values(body));
        let v = if neg {
            -m
        } else {
            m
        };
        if i128::MIN <= v <= i128::MAX {
            Some(v)
        } else {
            None
        }
    } else {
        None
    }
}

/// Reads a numeral as `i128` does.
pub fn read_numeral(t: &Vec<char>) -> (r: Option<i128>)
    ensures
        r matches Some(v) ==> numeral_value(t@) == Some(v as int),
        r is None ==> numeral_value(t@) is None,
{
    let neg = t.len() > 0 && t[0] == '-';
    let start: usize = if t.len() > 0 && (t[0] == '-' || t[0] == '+') {
        1
    } else {
        0
    };
    let ghost body = t@.subrange(start as int, t@.len() as int);
    if start >= t.len() {
        return None;
    }
    let mut ds: Vec<u8> = Vec::new();
    let mut i: usize = start;
    while i < t.len()
        invariant
            start <= i <= t@.len(),
            start < t@.len(),
            start as int == (if t@.len() > 0 && (t@[0] == '-' || t@[0] == '+') {
                1int
            } else {
                0int
            }),
            neg == (t@.len() > 0 && t@[0] == '-'),
            body == t@.subrange(start as int, t@.len() as int),
            all_digits(t@.subrange(start as int, i as int)),
            digits_view(ds@) == digit_values(t@.subrange(start as int, i as int)),
        decreases t@.len() - i,
    {
        let c = t[i];
        if !('0' <= c && c <= '9') {
            assert(body[i - start] == c);
            assert(!all_digits(body));
            assert(numeral_value(t@) is None);
            return None;
        }
        let d = (c as u32 - '0' as u32) as u8;
        assert(d as int == digit_of(c));
        let ghost prev = t@.subrange(start as int, i as int);
        let ghost old_ds = digits_view(ds@);
        ds.push(d);
        i = i + 1;
        assert(t@.subrange(start as int, i as int) =~= prev.push(c));
        assert(digits_view(ds@) =~= old_ds.push(d as int));
        assert(digit_values(prev.push(c)) =~= digit_values(prev).push(digit_of(c)));
    }
    assert(t@.subrange(start as int, i as int) =~= body);
    match decimal_value(&ds) {
        Some(m) => {
            if neg {
                if m == MAGNITUDE_LIMIT {
                    Some(i128::MIN)
                } else {
                    Some(-(m as i128))
                }
            } else if m < MAGNITUDE_LIMIT {
                Some(m as i128)
            } else {
                None
            }
        },
        None => None,
    }
}

/// The poetic value of a list of words: each word is the digit
/// `length mod 10`, most significant first. Length counts characters; the
/// lexer's words are ASCII letters, where that is also the byte length.
pub open spec fn poetic_digits(ws: Seq<Seq<char>>) -> Seq<int> {
    ws.map_values(|w: Seq<char>| (w.len() % 10) as int)
}


/// The value of digits written out place by place: the digit `k` of `n`
/// counts `10^(n-1-k)` times.
pub open spec fn positional(ds: Seq<int>) -> int
    decreases ds.len(),
{
    if ds.len() == 0 {
        0
    } else {
        ds[0] * pow(10, (ds.len() - 1) as nat) + positional(ds.drop_first())
    }
}

proof fn lemma_positional_last(ds: Seq<int>)
    requires
        ds.len() > 0,
    ensures
        positional(ds) == positional(ds.drop_last()) * 10 + ds.last(),
    decreases ds.len(),
{
    let n = ds.len();
    if n == 1 {
        assert(pow(10, 0) == 1) by {
            reveal(pow);
        }
        assert(positional(ds.drop_first()) == 0);
        assert(positional(ds.drop_last()) == 0);
        assert(ds[0] * 1 == ds[0]);
        assert(ds.last() == ds[0]);
    } else {
        let df = ds.drop_first();
        lemma_positional_last(df);
        assert(ds.drop_last().drop_first() =~= df.drop_last());
        assert(ds.drop_last()[0] == ds[0]);
        assert(df.last() == ds.last());
        let a = pow(10, (n - 2) as nat);
        assert(pow(10, (n - 1) as nat) == 10 * a) by {
            reveal(pow);
        }
        let x = ds[0];
        let y = positional(df.drop_last());
        assert((x * a + y) * 10 == x * (10 * a) + y * 10) by (nonlinear_arith);
        assert(positional(ds) == x * pow(10, (n - 1) as nat) + positional(df));
        assert(positional(ds.drop_last()) == x * a + y);
    }
}

/// The Horner reading of digits equals their place-value sum.
pub proof fn lemma_decimal_positional(ds: Seq<int>)
    ensures
        decimal(ds) == positional(ds),
    decreases ds.len(),
{
    if ds.len() > 0 {
        lemma_decimal_positional(ds.drop_last());
        lemma_positional_last(ds);
    }
}

} // verus!
