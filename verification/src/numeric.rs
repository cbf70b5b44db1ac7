use vstd::prelude::*;

use crate::text::{chars_of, eq_ascii_nocase, range_eq_ascii_nocase, string_of};

verus! {

pub open spec fn is_digit(c: char) -> bool {
    '0' <= c && c <= '9'
}

/// The first index at or after `i` that does not hold a decimal digit.
pub open spec fn digit_run(s: Seq<char>, i: int) -> int
    decreases s.len() - i,
{
    if 0 <= i < s.len() && is_digit(s[i]) {
        digit_run(s, i + 1)
    } else {
        i
    }
}

pub proof fn lemma_digit_run_bounds(s: Seq<char>, i: int)
    requires
        0 <= i <= s.len(),
    ensures
        i <= digit_run(s, i) <= s.len(),
        forall|k: int| i <= k < digit_run(s, i) ==> is_digit(s[k]),
        digit_run(s, i) < s.len() ==> !is_digit(s[digit_run(s, i)]),
    decreases s.len() - i,
{
    if i < s.len() && is_digit(s[i]) {
        lemma_digit_run_bounds(s, i + 1);
    }
}

/// Index walk that computes [`digit_run`].
pub fn skip_digits(s: &[char], i: usize) -> (r: usize)
    requires
        i <= s@.len(),
    ensures
        r == digit_run(s@, i as int),
{
    let mut k = i;
    while k < s.len() && '0' <= s[k] && s[k] <= '9'
        invariant
            i <= k <= s@.len(),
            digit_run(s@, k as int) == digit_run(s@, i as int),
        decreases s@.len() - k,
    {
        k = k + 1;
    }
    k
}

/// The exponent part of a float literal: `e` or `E`, an optional sign, digits.
pub open spec fn is_exponent(x: Seq<char>) -> bool {
    x.len() > 0 && (x[0] == 'e' || x[0] == 'E') && {
        let st: int = if x.len() > 1 && (x[1] == '+' || x[1] == '-') {
            2
        } else {
            1
        };
        let d = digit_run(x, st);
        d > st && d == x.len()
    }
}

/// A decimal number as `f64::from_str` reads it: digits with an optional point
/// (with a digit on at least one side of it) and an optional exponent.
pub open spec fn is_decimal_number(b: Seq<char>) -> bool {
    let a = digit_run(b, 0);
    let dot = a < b.len() && b[a] == '.';
    let e = if dot {
        digit_run(b, a + 1)
    } else {
        a
    };
    let mantissa = if dot {
        a > 0 || e > a + 1
    } else {
        a > 0
    };
    mantissa && (e == b.len() || is_exponent(b.skip(e)))
}

/// The text after an optional leading `+` or `-`.
pub open spec fn unsigned_part(s: Seq<char>) -> Seq<char> {
    if s.len() > 0 && (s[0] == '+' || s[0] == '-') {
        s.skip(1)
    } else {
        s
    }
}

/// Whether `f64::from_str` accepts `s`: the grammar its documentation gives
/// (an optional sign, then `inf`, `infinity`, `nan` in any case, or a decimal number).
pub open spec fn is_float_literal(s: Seq<char>) -> bool {
    let b = unsigned_part(s);
    ||| eq_ascii_nocase(b, "inf"@)
    ||| eq_ascii_nocase(b, "infinity"@)
    ||| eq_ascii_nocase(b, "nan"@)
    ||| is_decimal_number(b)
}

fn exponent_ok(x: &[char], lo: usize) -> (r: bool)
    requires
        lo <= x@.len(),
    ensures
        r == is_exponent(x@.skip(lo as int)),
{
    let ghost t = x@.skip(lo as int);
    if lo >= x.len() || (x[lo] != 'e' && x[lo] != 'E') {
        return false;
    }
    let st: usize = if x.len() - lo > 1 && (x[lo + 1] == '+' || x[lo + 1] == '-') {
        2
    } else {
        1
    };
    proof {
        lemma_digit_run_bounds(x@, lo + st);
        lemma_digit_run_bounds(t, st as int);
        lemma_digit_run_shift(x@, lo as int, st as int);
    }
    let d = skip_digits(x, lo + st);
    d > lo + st && d == x.len()
}

/// Runs of digits in a suffix start where the same run starts in the whole.
pub proof fn lemma_digit_run_shift(s: Seq<char>, lo: int, i: int)
    requires
        0 <= lo <= s.len(),
        0 <= i <= s.len() - lo,
    ensures
        digit_run(s.skip(lo), i) + lo == digit_run(s, lo + i),
    decreases s.len() - lo - i,
{
    if i < s.len() - lo && is_digit(s[lo + i]) {
        lemma_digit_run_shift(s, lo, i + 1);
    }
}

/// Whether `f64::from_str` accepts `s[lo..hi]`.
pub fn float_literal_ok(s: &[char], lo: usize, hi: usize) -> (r: bool)
    requires
        lo <= hi <= s@.len(),
    ensures
        r == is_float_literal(s@.subrange(lo as int, hi as int)),
{
    let ghost t = s@.subrange(lo as int, hi as int);
    let st = if hi > lo && (s[lo] == '+' || s[lo] == '-') {
        lo + 1
    } else {
        lo
    };
    let mut b: Vec<char> = Vec::new();
    let mut k = st;
    while k < hi
        invariant
            lo <= st <= k <= hi <= s@.len(),
            b@ =~= s@.subrange(st as int, k as int),
        decreases hi - k,
    {
        b.push(s[k]);
        k = k + 1;
    }
    assert(b@ =~= unsigned_part(t));
    let bs = b.as_slice();
    let inf = chars_of("inf");
    let infinity = chars_of("infinity");
    let nan = chars_of("nan");
    if range_eq_ascii_nocase(bs, 0, bs.len(), inf.as_slice()) || range_eq_ascii_nocase(
        bs,
        0,
        bs.len(),
        infinity.as_slice(),
    ) || range_eq_ascii_nocase(bs, 0, bs.len(), nan.as_slice()) {
        assert(b@.subrange(0, b@.len() as int) =~= b@);
        return true;
    }
    assert(b@.subrange(0, b@.len() as int) =~= b@);
    proof {
        lemma_digit_run_bounds(b@, 0);
    }
    let a = skip_digits(bs, 0);
    let dot = a < bs.len() && bs[a] == '.';
    proof {
        if dot {
            lemma_digit_run_bounds(b@, a + 1);
        }
    }
    let e = if dot {
        skip_digits(bs, a + 1)
    } else {
        a
    };
    let mantissa = if dot {
        a > 0 || e > a + 1
    } else {
        a > 0
    };
    mantissa && (e == bs.len() || exponent_ok(bs, e))
}

/// The value of a sequence of decimal digits.
pub open spec fn dec_val(s: Seq<char>) -> nat
    decreases s.len(),
{
    if s.len() == 0 {
        0
    } else {
        dec_val(s.drop_last()) * 10 + ((s.last() as u32) - 48) as nat
    }
}

pub open spec fn all_digits(s: Seq<char>) -> bool {
    forall|k: int| 0 <= k < s.len() ==> is_digit(#[trigger] s[k])
}

/// What `usize::from_str` returns for `s`: an optional `+`, then at least one
/// digit and nothing else, with a value that fits.
pub open spec fn parse_usize_spec(s: Seq<char>) -> Option<usize> {
    let b = if s.len() > 0 && s[0] == '+' {
        s.skip(1)
    } else {
        s
    };
    if b.len() > 0 && all_digits(b) && dec_val(b) <= usize::MAX {
        Some(dec_val(b) as usize)
    } else {
        None
    }
}

/// What `i64::from_str` returns for `s`: an optional sign, then at least one
/// digit and nothing else, with a value in range.
pub open spec fn parse_i64_spec(s: Seq<char>) -> Option<i64> {
    let neg = s.len() > 0 && s[0] == '-';
    let b = unsigned_part(s);
    if b.len() > 0 && all_digits(b) {
        if neg {
            if dec_val(b) <= 0x8000_0000_0000_0000 {
                Some((0 - dec_val(b)) as i64)
            } else {
                None
            }
        } else if dec_val(b) <= i64::MAX {
            Some(dec_val(b) as i64)
        } else {
            None
        }
    } else {
        None
    }
}

pub proof fn lemma_dec_val_prefix_grows(s: Seq<char>, a: int, b: int)
    requires
        0 <= a <= b <= s.len(),
    ensures
        dec_val(s.take(a)) <= dec_val(s.take(b)),
    decreases b - a,
{
    if a < b {
        lemma_dec_val_prefix_grows(s, a, b - 1);
        assert(s.take(b).drop_last() =~= s.take(b - 1));
    }
}

/// Value of the digits `s[lo..hi]`, or `None` when it exceeds `u64::MAX`.
fn digits_value(s: &[char], lo: usize, hi: usize) -> (r: Option<u64>)
    requires
        lo <= hi <= s@.len(),
        all_digits(s@.subrange(lo as int, hi as int)),
    ensures
        match r {
            Some(v) => v == dec_val(s@.subrange(lo as int, hi as int)),
            None => dec_val(s@.subrange(lo as int, hi as int)) > u64::MAX,
        },
{
    let ghost t = s@.subrange(lo as int, hi as int);
    let mut v: u64 = 0;
    let mut k = lo;
    while k < hi
        invariant
            lo <= k <= hi <= s@.len(),
            t == s@.subrange(lo as int, hi as int),
            all_digits(t),
            v == dec_val(t.take(k - lo)),
        decreases hi - k,
    {
        assert(t[k - lo] == s@[k as int]);
        assert(is_digit(t[k - lo]));
        let d = (s[k] as u32 - 48) as u64;
        assert(t.take(k - lo + 1).drop_last() =~= t.take(k - lo));
        match v.checked_mul(10) {
            Some(v10) => match v10.checked_add(d) {
                Some(nv) => {
                    v = nv;
                },
                None => {
                    proof {
                        lemma_dec_val_prefix_grows(t, k - lo + 1, t.len() as int);
                        assert(t.take(t.len() as int) =~= t);
                    }
                    return None;
                },
            },
            None => {
                proof {
                    lemma_dec_val_prefix_grows(t, k - lo + 1, t.len() as int);
                    assert(t.take(t.len() as int) =~= t);
                }
                return None;
            },
        }
        k = k + 1;
    }
    assert(t.take(hi - lo) =~= t);
    Some(v)
}

/// Whether `s[lo..hi]` holds only decimal digits.
fn range_all_digits(s: &[char], lo: usize, hi: usize) -> (r: bool)
    requires
        lo <= hi <= s@.len(),
    ensures
        r == all_digits(s@.subrange(lo as int, hi as int)),
{
    let mut k = lo;
    while k < hi
        invariant
            lo <= k <= hi <= s@.len(),
            forall|j: int| lo <= j < k ==> is_digit(s@[j]),
        decreases hi - k,
    {
        if !('0' <= s[k] && s[k] <= '9') {
            assert(!is_digit(s@.subrange(lo as int, hi as int)[k - lo]));
            return false;
        }
        k = k + 1;
    }
    assert forall|j: int| 0 <= j < hi - lo implies is_digit(
        #[trigger] s@.subrange(lo as int, hi as int)[j],
    ) by {
        assert(s@.subrange(lo as int, hi as int)[j] == s@[lo + j]);
    }
    true
}

/// `usize::from_str` over `s[lo..hi]`.
pub fn parse_usize_range(s: &[char], lo: usize, hi: usize) -> (r: Option<usize>)
    requires
        lo <= hi <= s@.len(),
    ensures
        r == parse_usize_spec(s@.subrange(lo as int, hi as int)),
{
    let ghost t = s@.subrange(lo as int, hi as int);
    let st = if hi > lo && s[lo] == '+' {
        lo + 1
    } else {
        lo
    };
    assert(s@.subrange(st as int, hi as int) =~= if t.len() > 0 && t[0] == '+' {
        t.skip(1)
    } else {
        t
    });
    if st >= hi || !range_all_digits(s, st, hi) {
        return None;
    }
    match digits_value(s, st, hi) {
        Some(v) => {
            if v <= usize::MAX as u64 {
                Some(v as usize)
            } else {
                None
            }
        },
        None => None,
    }
}

/// The value of `s` read as an unsigned integer (an optional `+`, then at
/// least one digit and nothing else), with no bound.
pub open spec fn unsigned_value(s: Seq<char>) -> Option<nat> {
    let b = if s.len() > 0 && s[0] == '+' {
        s.skip(1)
    } else {
        s
    };
    if b.len() > 0 && all_digits(b) {
        Some(dec_val(b))
    } else {
        None
    }
}

/// What `u64::from_str` returns for `s`.
pub open spec fn parse_u64_spec(s: Seq<char>) -> Option<u64> {
    match unsigned_value(s) {
        Some(v) => if v <= u64::MAX { Some(v as u64) } else { None },
        None => None,
    }
}

/// What `u16::from_str` returns for `s`.
pub open spec fn parse_u16_spec(s: Seq<char>) -> Option<u16> {
    match unsigned_value(s) {
        Some(v) => if v <= u16::MAX { Some(v as u16) } else { None },
        None => None,
    }
}

/// `u64::from_str` over `s[lo..hi]`.
pub fn parse_u64_range(s: &[char], lo: usize, hi: usize) -> (r: Option<u64>)
    requires
        lo <= hi <= s@.len(),
    ensures
        r == parse_u64_spec(s@.subrange(lo as int, hi as int)),
{
    let ghost t = s@.subrange(lo as int, hi as int);
    let st = if hi > lo && s[lo] == '+' {
        lo + 1
    } else {
        lo
    };
    assert(s@.subrange(st as int, hi as int) =~= if t.len() > 0 && t[0] == '+' {
        t.skip(1)
    } else {
        t
    });
    if st >= hi || !range_all_digits(s, st, hi) {
        return None;
    }
    digits_value(s, st, hi)
}

/// `u16::from_str` over `s[lo..hi]`.
pub fn parse_u16_range(s: &[char], lo: usize, hi: usize) -> (r: Option<u16>)
    requires
        lo <= hi <= s@.len(),
    ensures
        r == parse_u16_spec(s@.subrange(lo as int, hi as int)),
{
    match parse_u64_range(s, lo, hi) {
        Some(v) => if v <= 65535 { Some(v as u16) } else { None },
        None => None,
    }
}

/// `i64::from_str` over `s[lo..hi]`.
pub fn parse_i64_range(s: &[char], lo: usize, hi: usize) -> (r: Option<i64>)
    requires
        lo <= hi <= s@.len(),
    ensures
        r == parse_i64_spec(s@.subrange(lo as int, hi as int)),
{
    let ghost t = s@.subrange(lo as int, hi as int);
    let neg = hi > lo && s[lo] == '-';
    let st = if hi > lo && (s[lo] == '+' || s[lo] == '-') {
        lo + 1
    } else {
        lo
    };
    assert(s@.subrange(st as int, hi as int) =~= unsigned_part(t));
    if st >= hi || !range_all_digits(s, st, hi) {
        return None;
    }
    match digits_value(s, st, hi) {
        Some(v) => {
            if neg {
                if v <= 0x8000_0000_0000_0000u64 {
                    if v == 0x8000_0000_0000_0000u64 {
                        Some(i64::MIN)
                    } else {
                        Some(0 - (v as i64))
                    }
                } else {
                    None
                }
            } else if v <= i64::MAX as u64 {
                Some(v as i64)
            } else {
                None
            }
        },
        None => None,
    }
}

/// The decimal digits of `n`, most significant first (`usize::to_string`).
pub open spec fn dec_str(n: nat) -> Seq<char>
    decreases n,
{
    if n < 10 {
        seq![(48 + n) as char]
    } else {
        dec_str(n / 10).push((48 + n % 10) as char)
    }
}

/// Appends the decimal digits of `n` to `v`.
pub fn push_decimal(v: &mut Vec<char>, n: usize)
    ensures
        final(v)@ == old(v)@ + dec_str(n as nat),
    decreases n,
{
    if n >= 10 {
        push_decimal(v, n / 10);
    }
    let d = (n % 10) as u8;
    let c = (48u8 + d) as char;
    v.push(c);
    proof {
        if n >= 10 {
            assert(old(v)@ + dec_str(n as nat) =~= (old(v)@ + dec_str((n / 10) as nat)).push(c));
        } else {
            assert(old(v)@ + dec_str(n as nat) =~= old(v)@.push(c));
        }
    }
}

/// The decimal text of `n` (`usize::to_string`).
pub fn decimal_string(n: usize) -> (r: String)
    ensures
        r@ == dec_str(n as nat),
{
    let mut v: Vec<char> = Vec::new();
    push_decimal(&mut v, n);
    assert(Seq::<char>::empty() + dec_str(n as nat) =~= dec_str(n as nat));
    string_of(v.as_slice())
}

/// Appends the decimal digits of `n` to `v`.
pub fn push_decimal_u64(v: &mut Vec<char>, n: u64)
    ensures
        final(v)@ == old(v)@ + dec_str(n as nat),
    decreases n,
{
    if n >= 10 {
        push_decimal_u64(v, n / 10);
    }
    let d = (n % 10) as u8;
    let c = (48u8 + d) as char;
    v.push(c);
    proof {
        if n >= 10 {
            assert(old(v)@ + dec_str(n as nat) =~= (old(v)@ + dec_str((n / 10) as nat)).push(c));
        } else {
            assert(old(v)@ + dec_str(n as nat) =~= old(v)@.push(c));
        }
    }
}

/// The decimal text of an integer, with a `-` before a negative one
/// (`i64::to_string`).
pub open spec fn signed_text(x: int) -> Seq<char> {
    if x < 0 {
        seq!['-'] + dec_str((-x) as nat)
    } else {
        dec_str(x as nat)
    }
}

/// The decimal text of `x` (`i64::to_string`).
pub fn signed_decimal(x: i64) -> (r: String)
    ensures
        r@ == signed_text(x as int),
{
    let mut v: Vec<char> = Vec::new();
    if x < 0 {
        v.push('-');
        let y: i64 = -(x + 1);
        let m: u64 = y as u64 + 1;
        assert(m == -x);
        push_decimal_u64(&mut v, m);
        assert(v@ =~= seq!['-'] + dec_str((-x) as nat));
    } else {
        push_decimal_u64(&mut v, x as u64);
        assert(v@ =~= dec_str(x as nat));
    }
    string_of(v.as_slice())
}

} // verus!
