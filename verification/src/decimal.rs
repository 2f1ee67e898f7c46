//! Decimal digit strings as numbers, and the magnitude at which a decimal literal no longer
//! fits an `f64`.
use vstd::prelude::*;

use crate::text::{all_digits, digit_value, digits_value, is_ascii_digit};

verus! {

/// Ten to the power `k`.
pub open spec fn pow10(k: nat) -> nat
    decreases k,
{
    if k == 0 {
        1
    } else {
        10 * pow10((k - 1) as nat)
    }
}

/// The least magnitude that reading a decimal literal as `f64` rounds to infinity:
/// 2^1024 - 2^970, written out in decimal below. It lies halfway between `f64::MAX` and
/// 2^1024, and that tie rounds to the even 2^1024, which overflows.
pub open spec fn f64_overflow_bound() -> nat {
    digits_value(bound_digits())
}

/// The decimal digits of 2^1024 - 2^970.
#[verifier::opaque]
pub open spec fn bound_digits() -> Seq<char> {
    seq![
        '1', '7', '9', '7', '6', '9', '3', '1', '3', '4', '8', '6', '2', '3', '1', '5',
        '8', '0', '7', '9', '3', '7', '2', '8', '9', '7', '1', '4', '0', '5', '3', '0',
        '3', '4', '1', '5', '0', '7', '9', '9', '3', '4', '1', '3', '2', '7', '1', '0',
        '0', '3', '7', '8', '2', '6', '9', '3', '6', '1', '7', '3', '7', '7', '8', '9',
        '8', '0', '4', '4', '4', '9', '6', '8', '2', '9', '2', '7', '6', '4', '7', '5',
        '0', '9', '4', '6', '6', '4', '9', '0', '1', '7', '9', '7', '7', '5', '8', '7',
        '2', '0', '7', '0', '9', '6', '3', '3', '0', '2', '8', '6', '4', '1', '6', '6',
        '9', '2', '8', '8', '7', '9', '1', '0', '9', '4', '6', '5', '5', '5', '5', '4',
        '7', '8', '5', '1', '9', '4', '0', '4', '0', '2', '6', '3', '0', '6', '5', '7',
        '4', '8', '8', '6', '7', '1', '5', '0', '5', '8', '2', '0', '6', '8', '1', '9',
        '0', '8', '9', '0', '2', '0', '0', '0', '7', '0', '8', '3', '8', '3', '6', '7',
        '6', '2', '7', '3', '8', '5', '4', '8', '4', '5', '8', '1', '7', '7', '1', '1',
        '5', '3', '1', '7', '6', '4', '4', '7', '5', '7', '3', '0', '2', '7', '0', '0',
        '6', '9', '8', '5', '5', '5', '7', '1', '3', '6', '6', '9', '5', '9', '6', '2',
        '2', '8', '4', '2', '9', '1', '4', '8', '1', '9', '8', '6', '0', '8', '3', '4',
        '9', '3', '6', '4', '7', '5', '2', '9', '2', '7', '1', '9', '0', '7', '4', '1',
        '6', '8', '4', '4', '4', '3', '6', '5', '5', '1', '0', '7', '0', '4', '3', '4',
        '2', '7', '1', '1', '5', '5', '9', '6', '9', '9', '5', '0', '8', '0', '9', '3',
        '0', '4', '2', '8', '8', '0', '1', '7', '7', '9', '0', '4', '1', '7', '4', '4',
        '9', '7', '7', '9', '2',
    ]
}

/// The bound has 309 digits, the first of them a one: it lies between ten to the 308th
/// and ten to the 309th.
pub proof fn lemma_bound_digits()
    ensures
        bound_digits().len() == 309,
        all_digits(bound_digits()),
        bound_digits()[0] == '1',
        pow10(308) <= f64_overflow_bound() < pow10(309),
{
    let b = bound_digits();
    assert(b.len() == 309 && b[0] == '1') by {
        reveal(bound_digits);
    }
    assert forall|i: int| 0 <= i < b.len() implies is_ascii_digit(#[trigger] b[i]) by {
        reveal(bound_digits);
    }
    lemma_dv_lead(b);
    lemma_dv_bound(b);
}

pub proof fn lemma_pow10_pos(k: nat)
    ensures
        pow10(k) >= 1,
    decreases k,
{
    if k > 0 {
        lemma_pow10_pos((k - 1) as nat);
    }
}

pub proof fn lemma_pow10_add(a: nat, b: nat)
    ensures
        pow10(a + b) == pow10(a) * pow10(b),
    decreases b,
{
    if b == 0 {
        assert(pow10(0) == 1);
        assert(a + b == a);
        assert(pow10(a) * 1 == pow10(a)) by (nonlinear_arith);
    } else {
        let b1 = (b - 1) as nat;
        lemma_pow10_add(a, b1);
        assert(pow10(b) == 10 * pow10(b1));
        assert(pow10(a + b) == 10 * pow10(a + b1));
        assert(10 * (pow10(a) * pow10(b1)) == pow10(a) * (10 * pow10(b1))) by (nonlinear_arith);
        assert(pow10(a + b) == pow10(a) * (10 * pow10(b1)));
    }
}

pub proof fn lemma_pow10_mono(a: nat, b: nat)
    requires
        a <= b,
    ensures
        pow10(a) <= pow10(b),
    decreases b,
{
    if a < b {
        lemma_pow10_mono(a, (b - 1) as nat);
    }
}

/// A digit's value is at most nine.
pub proof fn lemma_digit_small(c: char)
    requires
        is_ascii_digit(c),
    ensures
        digit_value(c) <= 9,
        (c != '0') ==> digit_value(c) >= 1,
{
}

/// The value of `a` followed by `b`.
pub proof fn lemma_dv_concat(a: Seq<char>, b: Seq<char>)
    ensures
        digits_value(a + b) == digits_value(a) * pow10(b.len()) + digits_value(b),
    decreases b.len(),
{
    if b.len() == 0 {
        assert(a + b =~= a);
        assert(pow10(0) == 1);
        assert(digits_value(b) == 0);
        assert(digits_value(a) * 1 == digits_value(a)) by (nonlinear_arith);
    } else {
        let b1 = b.drop_last();
        lemma_dv_concat(a, b1);
        assert((a + b).drop_last() =~= a + b1);
        assert((a + b).last() == b.last());
        assert(digits_value(a + b) == digits_value(a + b1) * 10 + digit_value(b.last()));
        assert(digits_value(b) == digits_value(b1) * 10 + digit_value(b.last()));
        assert(pow10(b.len()) == 10 * pow10(b1.len()));
        let x = digits_value(a);
        let y = digits_value(b1);
        let p = pow10(b1.len());
        let d = digit_value(b.last());
        assert((x * p + y) * 10 + d == x * (10 * p) + (y * 10 + d)) by (nonlinear_arith);
        assert(digits_value(a + b) == x * (10 * p) + (y * 10 + d));
    }
}

/// A string of digits is worth less than ten to its length.
pub proof fn lemma_dv_bound(b: Seq<char>)
    requires
        all_digits(b),
    ensures
        digits_value(b) < pow10(b.len()),
    decreases b.len(),
{
    if b.len() > 0 {
        let b1 = b.drop_last();
        assert(all_digits(b1)) by {
            assert forall|i: int| 0 <= i < b1.len() implies is_ascii_digit(#[trigger] b1[i]) by {
                assert(b1[i] == b[i]);
            }
        }
        lemma_dv_bound(b1);
        lemma_digit_small(b.last());
        let y = digits_value(b1);
        let p = pow10(b1.len());
        let d = digit_value(b.last());
        assert(y * 10 + d < 10 * p) by (nonlinear_arith)
            requires
                y < p,
                d <= 9,
        ;
    }
}

/// Zeros are worth nothing.
pub proof fn lemma_dv_zeros(z: Seq<char>)
    requires
        forall|i: int| 0 <= i < z.len() ==> #[trigger] z[i] == '0',
    ensures
        digits_value(z) == 0,
    decreases z.len(),
{
    if z.len() > 0 {
        let z1 = z.drop_last();
        assert forall|i: int| 0 <= i < z1.len() implies #[trigger] z1[i] == '0' by {
            assert(z1[i] == z[i]);
        }
        lemma_dv_zeros(z1);
    }
}

/// A string of digits that does not start with zero is worth at least ten to its length
/// less one.
pub proof fn lemma_dv_lead(b: Seq<char>)
    requires
        all_digits(b),
        b.len() > 0,
        b[0] != '0',
    ensures
        digits_value(b) >= pow10((b.len() - 1) as nat),
{
    let h = b.take(1);
    let r = b.skip(1);
    assert(h + r =~= b);
    lemma_dv_concat(h, r);
    assert(h.drop_last() =~= Seq::<char>::empty());
    assert(digits_value(Seq::<char>::empty()) == 0);
    assert(h.last() == b[0]);
    assert(digits_value(h) == digits_value(h.drop_last()) * 10 + digit_value(h.last()));
    assert(digits_value(h) == digit_value(b[0]));
    lemma_digit_small(b[0]);
    let d = digits_value(h);
    let p = pow10(r.len());
    assert(d * p >= p) by (nonlinear_arith)
        requires
            d >= 1,
    ;
}

/// Two digit strings of one length compare as their first differing digits do.
pub proof fn lemma_dv_first_difference(a: Seq<char>, b: Seq<char>, k: int)
    requires
        a.len() == b.len(),
        all_digits(a),
        all_digits(b),
        0 <= k < a.len(),
        a.take(k) == b.take(k),
        a[k] != b[k],
    ensures
        (digits_value(a) < digits_value(b)) == (a[k] < b[k]),
{
    let ha = a.take(k + 1);
    let ta = a.skip(k + 1);
    let hb = b.take(k + 1);
    let tb = b.skip(k + 1);
    assert(ha + ta =~= a);
    assert(hb + tb =~= b);
    lemma_dv_concat(ha, ta);
    lemma_dv_concat(hb, tb);
    assert(ha.drop_last() =~= a.take(k));
    assert(hb.drop_last() =~= b.take(k));
    assert(all_digits(ta)) by {
        assert forall|i: int| 0 <= i < ta.len() implies is_ascii_digit(#[trigger] ta[i]) by {
            assert(ta[i] == a[k + 1 + i]);
        }
    }
    assert(all_digits(tb)) by {
        assert forall|i: int| 0 <= i < tb.len() implies is_ascii_digit(#[trigger] tb[i]) by {
            assert(tb[i] == b[k + 1 + i]);
        }
    }
    lemma_dv_bound(ta);
    lemma_dv_bound(tb);
    let pre = digits_value(a.take(k));
    let da = digit_value(a[k]);
    let db = digit_value(b[k]);
    let p = pow10(ta.len());
    let xa = digits_value(ta);
    let xb = digits_value(tb);
    assert(ta.len() == tb.len());
    if a[k] < b[k] {
        assert(da + 1 <= db);
        assert((pre * 10 + da) * p + xa < (pre * 10 + db) * p + xb) by (nonlinear_arith)
            requires
                da + 1 <= db,
                xa < p,
                0 <= xb,
        ;
    } else {
        assert(db + 1 <= da);
        assert((pre * 10 + db) * p + xb < (pre * 10 + da) * p + xa) by (nonlinear_arith)
            requires
                db + 1 <= da,
                xb < p,
                0 <= xa,
        ;
    }
}

/// Whether `m` times ten to the power `e` lies below `f64_overflow_bound()`.
pub open spec fn below_bound(m: nat, e: int) -> bool {
    if e >= 0 {
        m * pow10(e as nat) < f64_overflow_bound()
    } else {
        m < f64_overflow_bound() * pow10((-e) as nat)
    }
}

/// `s` followed by zeros up to length `len`.
pub open spec fn pad_zeros(s: Seq<char>, len: nat) -> Seq<char> {
    s + Seq::new((len - s.len()) as nat, |i: int| '0')
}

/// Padding with zeros keeps a string of digits one, and multiplies its value by ten per
/// zero.
pub proof fn lemma_pad_zeros(s: Seq<char>, len: nat)
    requires
        all_digits(s),
        s.len() <= len,
    ensures
        pad_zeros(s, len).len() == len,
        all_digits(pad_zeros(s, len)),
        digits_value(pad_zeros(s, len)) == digits_value(s) * pow10((len - s.len()) as nat),
{
    let z = Seq::new((len - s.len()) as nat, |i: int| '0');
    lemma_dv_zeros(z);
    lemma_dv_concat(s, z);
    let p = pad_zeros(s, len);
    assert forall|i: int| 0 <= i < p.len() implies is_ascii_digit(#[trigger] p[i]) by {
        if i < s.len() {
            assert(p[i] == s[i]);
        } else {
            assert(p[i] == z[i - s.len()]);
        }
    }
}

/// A number of `n` significant digits scaled by ten to the `e` is below the bound when
/// `n + e` is at most 308, and not when it is at least 310.
pub proof fn lemma_below_bound_by_magnitude(m: nat, n: nat, e: int)
    requires
        n >= 1,
        pow10((n - 1) as nat) <= m < pow10(n),
    ensures
        n + e <= 308 ==> below_bound(m, e),
        n + e >= 310 ==> !below_bound(m, e),
{
    lemma_bound_digits();
    let b = f64_overflow_bound();
    if e >= 0 {
        let ee = e as nat;
        lemma_pow10_pos(ee);
        lemma_pow10_add(n, ee);
        lemma_pow10_add((n - 1) as nat, ee);
        let pe = pow10(ee);
        if n + e <= 308 {
            lemma_pow10_mono(n + ee, 308);
            assert(m * pe < pow10(n) * pe) by (nonlinear_arith)
                requires
                    m < pow10(n),
                    pe >= 1,
            ;
        }
        if n + e >= 310 {
            lemma_pow10_mono(309, (n - 1 + ee) as nat);
            assert(m * pe >= pow10((n - 1) as nat) * pe) by (nonlinear_arith)
                requires
                    m >= pow10((n - 1) as nat),
                    pe >= 1,
            ;
        }
    } else {
        let ee = (-e) as nat;
        lemma_pow10_pos(ee);
        let pe = pow10(ee);
        if n + e <= 308 {
            lemma_pow10_mono(n, 308 + ee);
            lemma_pow10_add(308, ee);
            assert(pow10(308) * pe <= b * pe) by (nonlinear_arith)
                requires
                    pow10(308) <= b,
                    pe >= 1,
            ;
        }
        if n + e >= 310 {
            lemma_pow10_mono(309 + ee, (n - 1) as nat);
            lemma_pow10_add(309, ee);
            assert(b * pe < pow10(309) * pe) by (nonlinear_arith)
                requires
                    b < pow10(309),
                    pe >= 1,
            ;
        }
    }
}

/// Where the scaled number has 309 digits before the point, it is below the bound exactly
/// when its digits, padded with zeros, compare below the bound's digits padded alike.
pub proof fn lemma_below_bound_padded(d: Seq<char>, e: int)
    requires
        all_digits(d),
        d.len() + e == 309,
    ensures
        ({
            let len: nat = if d.len() > 309 {
                d.len()
            } else {
                309
            };
            below_bound(digits_value(d), e) == (digits_value(pad_zeros(d, len)) < digits_value(
                pad_zeros(bound_digits(), len),
            ))
        }),
{
    lemma_bound_digits();
    let len: nat = if d.len() > 309 {
        d.len()
    } else {
        309
    };
    lemma_pad_zeros(d, len);
    lemma_pad_zeros(bound_digits(), len);
    assert(pow10(0) == 1);
    let m = digits_value(d);
    let b = f64_overflow_bound();
    assert(m * 1 == m && b * 1 == b) by (nonlinear_arith);
}

} // verus!
