use vstd::prelude::*;
use vstd::string::StringSliceAdditionalSpecFns;

verus! {

/// Fixed-point units per whole unit of price or quantity: values carry eight
/// decimal places.
pub const PRICE_SCALE: u64 = 100000000;

/// Decimal places that fixed-point values carry.
pub const SCALE_DIGITS: usize = 8;

pub open spec fn is_digit(c: u8) -> bool {
    48 <= c <= 57
}

pub open spec fn all_digits(s: Seq<u8>) -> bool {
    forall|i: int| 0 <= i < s.len() ==> is_digit(#[trigger] s[i])
}

/// The number a run of decimal digits spells.
pub open spec fn digits_value(s: Seq<u8>) -> nat
    decreases s.len(),
{
    if s.len() == 0 {
        0
    } else {
        digits_value(s.drop_last()) * 10 + (s.last() - 48) as nat
    }
}

pub open spec fn pow10(n: nat) -> nat
    decreases n,
{
    if n == 0 { 1 } else { 10 * pow10((n - 1) as nat) }
}

/// The fractional digits `f` in units of 10^-8; digits past the eighth are dropped.
pub open spec fn scaled_fraction(f: Seq<u8>) -> nat {
    if f.len() >= 8 {
        digits_value(f.take(8))
    } else {
        digits_value(f) * pow10((8 - f.len()) as nat)
    }
}

/// Whether `s` is `digits '.' digits` with its point at `k` and a digit on at
/// least one side.
pub open spec fn point_at(s: Seq<u8>, k: int) -> bool {
    &&& 0 <= k < s.len()
    &&& s[k] == 46
    &&& all_digits(s.take(k))
    &&& all_digits(s.skip(k + 1))
    &&& s.len() >= 2
}

/// The exact value of an unsigned decimal numeral in fixed-point units, if `s`
/// is one: digits, optionally with one decimal point and digits after it.
pub open spec fn decimal_units(s: Seq<u8>) -> Option<nat> {
    if s.len() > 0 && all_digits(s) {
        Some(digits_value(s) * (PRICE_SCALE as nat))
    } else if exists|k: int| point_at(s, k) {
        let k = choose|k: int| point_at(s, k);
        Some(digits_value(s.take(k)) * (PRICE_SCALE as nat) + scaled_fraction(s.skip(k + 1)))
    } else {
        None
    }
}

/// The fixed-point value of a decimal numeral, when it is one and fits in 64 bits.
pub open spec fn parsed_decimal(s: Seq<u8>) -> Option<u64> {
    match decimal_units(s) {
        Some(v) => if v <= u64::MAX { Some(v as u64) } else { None },
        None => None,
    }
}

proof fn lemma_digits_prefix(s: Seq<u8>, k: int)
    requires
        0 <= k <= s.len(),
    ensures
        digits_value(s.take(k)) <= digits_value(s),
    decreases s.len(),
{
    if k < s.len() {
        lemma_digits_prefix(s.drop_last(), k);
        assert(s.drop_last().take(k) =~= s.take(k));
    } else {
        assert(s.take(k) =~= s);
    }
}

proof fn lemma_point_unique(s: Seq<u8>, k: int, j: int)
    requires
        point_at(s, k),
        0 <= j < s.len(),
        s[j] == 46,
    ensures
        j == k,
{
    if j < k {
        assert(s.take(k)[j] == s[j]);
    } else if j > k {
        assert(s.skip(k + 1)[j - k - 1] == s[j]);
    }
}

proof fn lemma_pow10_8()
    ensures
        pow10(8) == 100000000,
{
    assert(pow10(0) == 1);
    assert(pow10(1) == 10);
    assert(pow10(2) == 100);
    assert(pow10(3) == 1000);
    assert(pow10(4) == 10000);
    assert(pow10(5) == 100000);
    assert(pow10(6) == 1000000);
    assert(pow10(7) == 10000000);
    assert(pow10(8) == 100000000);
}

proof fn lemma_pow10_add(a: nat, b: nat)
    ensures
        pow10(a) * pow10(b) == pow10((a + b) as nat),
        pow10(a) >= 1,
    decreases a,
{
    if a > 0 {
        lemma_pow10_add((a - 1) as nat, b);
        let x = pow10((a - 1) as nat);
        let y = pow10((a + b - 1) as nat);
        assert(pow10((a + b) as nat) == 10 * y);
        assert(pow10(a) == 10 * x);
        assert(x * pow10(b) == y);
        assert(pow10(a) * pow10(b) == pow10((a + b) as nat)) by (nonlinear_arith)
            requires
                pow10(a) == 10 * x,
                x * pow10(b) == y,
                pow10((a + b) as nat) == 10 * y,
        ;
    } else {
        assert(pow10(0) == 1);
    }
}

proof fn lemma_digits_bound(s: Seq<u8>)
    requires
        all_digits(s),
    ensures
        digits_value(s) < pow10(s.len()),
    decreases s.len(),
{
    if s.len() > 0 {
        let t = s.drop_last();
        assert(all_digits(t)) by {
            assert forall|i: int| 0 <= i < t.len() implies is_digit(#[trigger] t[i]) by {
                assert(t[i] == s[i]);
            }
        }
        lemma_digits_bound(t);
        assert(is_digit(s[s.len() - 1]));
        assert(pow10(s.len()) == 10 * pow10(t.len()));
    }
}

proof fn lemma_frac_bound(f: Seq<u8>)
    requires
        all_digits(f),
    ensures
        scaled_fraction(f) < PRICE_SCALE,
{
    lemma_pow10_8();
    if f.len() >= 8 {
        let t = f.take(8);
        assert(all_digits(t)) by {
            assert forall|i: int| 0 <= i < t.len() implies is_digit(#[trigger] t[i]) by {
                assert(t[i] == f[i]);
            }
        }
        lemma_digits_bound(t);
    } else {
        lemma_digits_bound(f);
        lemma_pow10_add(f.len(), (8 - f.len()) as nat);
        lemma_pow10_add((8 - f.len()) as nat, 0);
        assert(digits_value(f) * pow10((8 - f.len()) as nat) < pow10(f.len()) * pow10((8 - f.len()) as nat))
            by (nonlinear_arith)
            requires
                digits_value(f) < pow10(f.len()),
                pow10((8 - f.len()) as nat) >= 1,
        ;
    }
}

/// The value of the digits `s[lo..hi]`, when it fits in 64 bits.
fn digits_u64(s: &[u8], lo: usize, hi: usize) -> (r: Option<u64>)
    requires
        lo <= hi <= s@.len(),
        all_digits(s@.subrange(lo as int, hi as int)),
    ensures
        ({
            let v = digits_value(s@.subrange(lo as int, hi as int));
            &&& v <= u64::MAX ==> r == Some(v as u64)
            &&& v > u64::MAX ==> r.is_none()
        }),
{
    let ghost d = s@.subrange(lo as int, hi as int);
    let mut acc: u64 = 0;
    let mut i: usize = lo;
    while i < hi
        invariant
            lo <= i <= hi <= s@.len(),
            d == s@.subrange(lo as int, hi as int),
            all_digits(d),
            acc == digits_value(d.take(i - lo)),
        decreases hi - i,
    {
        let c = s[i];
        assert(d[i - lo] == c);
        assert(d.take(i - lo + 1).drop_last() =~= d.take(i - lo));
        let digit: u64 = (c - 48) as u64;
        if acc > (u64::MAX - digit) / 10 {
            proof {
                lemma_digits_prefix(d, i - lo + 1);
            }
            return None;
        }
        acc = acc * 10 + digit;
        i = i + 1;
    }
    assert(d.take(hi - lo) =~= d);
    Some(acc)
}

/// Parses an unsigned decimal numeral into fixed-point units.
pub fn parse_decimal(text: &str) -> (r: Option<u64>)
    ensures
        r == parsed_decimal(text.spec_bytes()),
{
    let s = text.as_bytes();
    let ghost b = s@;
    let n = s.len();
    let mut dot: usize = n;
    let mut i: usize = 0;
    let mut ok = true;
    while i < n
        invariant
            n == b.len(),
            b == s@,
            i <= n,
            dot == n || (dot < i && b[dot as int] == 46),
            ok ==> forall|j: int| 0 <= j < i && j != dot ==> is_digit(#[trigger] b[j]),
            !ok ==> decimal_units(b).is_none(),
        decreases n - i,
    {
        let c = s[i];
        if c == 46 && dot == n {
            dot = i;
        } else if !(48 <= c && c <= 57) {
            if ok {
                proof {
                    assert(!all_digits(b));
                    assert forall|k: int| !point_at(b, k) by {
                        if point_at(b, k) {
                            if c == 46 {
                                lemma_point_unique(b, k, i as int);
                                lemma_point_unique(b, k, dot as int);
                            } else if (i as int) < k {
                                assert(b.take(k)[i as int] == c);
                            } else if (i as int) > k {
                                assert(b.skip(k + 1)[i - k - 1] == c);
                            }
                        }
                    }
                }
            }
            ok = false;
        }
        i = i + 1;
    }
    if !ok {
        return None;
    }
    if dot == n {
        if n == 0 {
            return None;
        }
        assert(b.subrange(0, n as int) =~= b);
        return match digits_u64(s, 0, n) {
            Some(v) => {
                if v > u64::MAX / PRICE_SCALE {
                    None
                } else {
                    Some(v * PRICE_SCALE)
                }
            },
            None => None,
        };
    }
    if n < 2 {
        proof {
            assert forall|k: int| !point_at(b, k) by {}
        }
        return None;
    }
    assert(point_at(b, dot as int)) by {
        assert(b.take(dot as int) =~= b.subrange(0, dot as int));
        assert forall|j: int| 0 <= j < b.skip(dot + 1).len() implies is_digit(#[trigger] b.skip(dot + 1)[j]) by {
            assert(b.skip(dot + 1)[j] == b[dot + 1 + j]);
        }
    }
    proof {
        let k = choose|k: int| point_at(b, k);
        lemma_point_unique(b, k, dot as int);
        assert(!all_digits(b)) by {
            assert(!is_digit(b[dot as int]));
        }
    }
    assert(b.take(dot as int) =~= b.subrange(0, dot as int));
    assert(b.skip(dot + 1) =~= b.subrange(dot + 1, n as int));
    let whole = match digits_u64(s, 0, dot) {
        Some(v) => v,
        None => {
            return None;
        },
    };
    if whole > u64::MAX / PRICE_SCALE {
        return None;
    }
    let frac_end: usize = if n - (dot + 1) > SCALE_DIGITS { dot + 1 + SCALE_DIGITS } else { n };
    let ghost f = b.skip(dot + 1);
    assert(f.take((frac_end - dot - 1) as int) =~= b.subrange(dot + 1, frac_end as int));
    assert(all_digits(b.subrange(dot + 1, frac_end as int))) by {
        assert forall|j: int| 0 <= j < frac_end - dot - 1 implies is_digit(
            #[trigger] b.subrange(dot + 1, frac_end as int)[j],
        ) by {
            assert(b.subrange(dot + 1, frac_end as int)[j] == f[j]);
        }
    }
    proof {
        let t = b.subrange(dot + 1, frac_end as int);
        lemma_digits_bound(t);
        lemma_pow10_add(t.len(), (8 - t.len()) as nat);
        lemma_pow10_8();
        lemma_pow10_add((8 - t.len()) as nat, 0);
        assert(pow10(t.len()) <= pow10(8)) by (nonlinear_arith)
            requires
                pow10(t.len()) * pow10((8 - t.len()) as nat) == pow10(8),
                pow10((8 - t.len()) as nat) >= 1,
                pow10(t.len()) >= 1,
        ;
    }
    let frac_digits = match digits_u64(s, dot + 1, frac_end) {
        Some(v) => v,
        None => {
            return None;
        },
    };
    proof {
        lemma_frac_bound(f);
    }
    let mut frac: u64 = frac_digits;
    let mut k: usize = frac_end - dot - 1;
    proof {
        assert(f.len() == n - dot - 1);
        assert(pow10(0) == 1);
        assert(frac == digits_value(f.take(k as int)));
        if f.len() >= 8 {
            assert(k == 8);
            assert(f.take(8) =~= f.take(k as int));
            assert(frac as nat * pow10((8 - k) as nat) == scaled_fraction(f));
        } else {
            assert(k == f.len());
            assert(f.take(k as int) =~= f);
            assert(frac as nat * pow10((8 - k) as nat) == scaled_fraction(f));
        }
    }
    while k < SCALE_DIGITS
        invariant
            k <= SCALE_DIGITS,
            frac_end - dot - 1 <= k,
            frac as nat * pow10((8 - k) as nat) == scaled_fraction(f),
            scaled_fraction(f) < PRICE_SCALE,
        decreases SCALE_DIGITS - k,
    {
        assert(pow10((8 - k) as nat) == 10 * pow10((8 - k - 1) as nat));
        proof {
            lemma_pow10_add((8 - k - 1) as nat, 0);
        }
        assert((frac * 10) as nat * pow10((8 - k - 1) as nat) == frac as nat * pow10((8 - k) as nat))
            by (nonlinear_arith)
            requires
                pow10((8 - k) as nat) == 10 * pow10((8 - k - 1) as nat),
        ;
        assert(frac * 10 <= scaled_fraction(f)) by (nonlinear_arith)
            requires
                frac as nat * pow10((8 - k) as nat) == scaled_fraction(f),
                pow10((8 - k) as nat) == 10 * pow10((8 - k - 1) as nat),
                pow10((8 - k - 1) as nat) >= 1,
        ;
        frac = frac * 10;
        k = k + 1;
    }
    assert(pow10(0) == 1);
    assert(k == SCALE_DIGITS);
    assert(frac == scaled_fraction(f)) by {
        assert((8 - k) as nat == 0);
    }
    let base: u64 = whole * PRICE_SCALE;
    if frac > u64::MAX - base {
        return None;
    }
    Some(base + frac)
}

} // verus!
