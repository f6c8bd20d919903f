//! The arithmetic of frame counts: from timecode fields to an absolute frame count and
//! back, including the drop-frame correction, as spec functions on integers with the
//! lemmas that relate the two directions.
use vstd::prelude::*;

verus! {

use vstd::arithmetic::div_mod::{lemma_fundamental_div_mod, lemma_fundamental_div_mod_converse};

/// Frames from 00:00:00:00 to the label h:m:s:f when every label is used.
pub open spec fn nominal_count(h: int, m: int, s: int, f: int, mf: int) -> int {
    ((h * 60 + m) * 60 + s) * mf + f
}

/// Frame labels skipped in the first `minutes` minutes: `k` at the start of every
/// minute that is not a multiple of ten (drop-frame), none otherwise.
pub open spec fn dropped_labels(minutes: int, drop: Option<u32>) -> int {
    match drop {
        Some(k) => (minutes - minutes / 10) * k,
        None => 0,
    }
}

/// The absolute frame count of the label h:m:s:f.
pub open spec fn frame_count_of(h: int, m: int, s: int, f: int, mf: int, drop: Option<u32>) -> int {
    nominal_count(h, m, s, f, mf) - dropped_labels(h * 60 + m, drop)
}

/// The drop-frame correction: from a frame count to the count of labels that precede it
/// when skipped labels are counted too.
pub open spec fn adjusted_count(k: int, n: int) -> int {
    let p = k * 8991;
    let d = n / p;
    let r = n % p;
    let r2 = if r < k {
        r + k
    } else {
        r
    };
    n + 9 * k * d + k * ((r2 - k) / (p / 10))
}

/// The label position of frame `n`: `n` itself unless labels are dropped.
pub open spec fn label_count(n: int, drop: Option<u32>) -> int {
    match drop {
        Some(k) => adjusted_count(k as int, n),
        None => n,
    }
}

/// The label h:m:s;f is one that drop-frame counting skips.
pub open spec fn in_dropped_window(m: int, s: int, f: int, drop: Option<u32>) -> bool {
    match drop {
        Some(k) => m % 10 != 0 && s == 0 && f < k,
        None => false,
    }
}

/// The drop-frame correction is exact at this rate: a ten-minute block of the
/// correction splits into whole minutes of `60 * mf - k` frames. For drop-frame rates
/// this holds up to 120 frames per second.
pub open spec fn exact_rate(mf: int, drop: Option<u32>) -> bool {
    &&& mf > 0
    &&& match drop {
        Some(k) => mf == 15 * k && (k * 8991) / 10 == 60 * mf - k,
        None => true,
    }
}

/// The frame count of 256:00:00:00, the first label that an hour field cannot hold.
pub open spec fn count_limit(mf: int, drop: Option<u32>) -> int {
    frame_count_of(256, 0, 0, 0, mf, drop)
}

/// The frame count of 256:00:00:00 in closed form.
pub proof fn lemma_count_limit(mf: int, drop: Option<u32>)
    ensures
        count_limit(mf, drop) == match drop {
            Some(k) => 921600 * mf - 13824 * k,
            None => 921600 * mf,
        },
{
    assert(nominal_count(256, 0, 0, 0, mf) == 921600 * mf);
    assert(15360int / 10 == 1536);
}

/// Splitting a label position into fields and adding them up again gives it back.
pub proof fn lemma_split(a: int, mf: int)
    requires
        a >= 0,
        mf > 0,
    ensures
        a == nominal_count(a / mf / 60 / 60, (a / mf / 60) % 60, (a / mf) % 60, a % mf, mf),
        (a / mf / 60 / 60) * 60 + (a / mf / 60) % 60 == a / mf / 60,
        a / mf / 60 * (60 * mf) <= a,
        a - a / mf / 60 * (60 * mf) == ((a / mf) % 60) * mf + a % mf,
{
    let x1 = a / mf;
    let x2 = x1 / 60;
    let x3 = x2 / 60;
    lemma_fundamental_div_mod(a, mf);
    lemma_fundamental_div_mod(x1, 60);
    lemma_fundamental_div_mod(x2, 60);
    assert(a == ((x3 * 60 + x2 % 60) * 60 + x1 % 60) * mf + a % mf) by (nonlinear_arith)
        requires
            a == mf * x1 + a % mf,
            x1 == 60 * x2 + x1 % 60,
            x2 == 60 * x3 + x2 % 60,
    ;
    assert(a - x2 * (60 * mf) == (x1 % 60) * mf + a % mf) by (nonlinear_arith)
        requires
            a == mf * x1 + a % mf,
            x1 == 60 * x2 + x1 % 60,
    ;
    assert((x1 % 60) * mf + a % mf >= 0) by (nonlinear_arith)
        requires
            x1 % 60 >= 0,
            mf > 0,
            a % mf >= 0,
    ;
}

/// A position `q` whole minutes plus `rem` frames in lies in minute `q`.
pub proof fn lemma_minute_of(a: int, mf: int, q: int, rem: int)
    requires
        mf > 0,
        q >= 0,
        0 <= rem < 60 * mf,
        a == q * (60 * mf) + rem,
    ensures
        a / mf / 60 == q,
{
    let r1 = rem / mf;
    lemma_fundamental_div_mod(rem, mf);
    assert(0 <= r1 < 60) by (nonlinear_arith)
        requires
            rem == mf * r1 + rem % mf,
            0 <= rem % mf < mf,
            0 <= rem < 60 * mf,
            mf > 0,
    ;
    assert(a == (q * 60 + r1) * mf + rem % mf) by (nonlinear_arith)
        requires
            a == q * (60 * mf) + rem,
            rem == mf * r1 + rem % mf,
    ;
    lemma_fundamental_div_mod_converse(a, mf, q * 60 + r1, rem % mf);
    lemma_fundamental_div_mod_converse(a / mf, 60, q, r1);
}

/// Facts on the drop-frame constants at an exact rate.
pub proof fn lemma_exact_constants(mf: int, k: int)
    requires
        exact_rate(mf, Some(k as u32)),
        0 < k <= u32::MAX,
    ensures
        k * 8991 == 10 * (60 * mf - k) + k,
        (k * 8991) / 10 == 60 * mf - k,
        60 * mf - k >= k,
        600 * mf == k * 8991 + 9 * k,
{
}

/// At an exact rate, frame `n` is labelled in minute `10 * (n / p) + q` for some
/// `q < 10`, the labels skipped before it are exactly the correction, and the label
/// is not a skipped one.
pub proof fn lemma_adjusted_forward(n: int, mf: int, k: int)
    requires
        n >= 0,
        0 < k <= u32::MAX,
        exact_rate(mf, Some(k as u32)),
    ensures
        ({
            let a = adjusted_count(k, n);
            let minutes = a / mf / 60;
            &&& a >= n
            &&& 10 * (n / (k * 8991)) <= minutes < 10 * (n / (k * 8991)) + 10
            &&& a - dropped_labels(minutes, Some(k as u32)) == n
            &&& (minutes % 10 == 0 || a - minutes * (60 * mf) >= k)
        }),
{
    lemma_exact_constants(mf, k);
    assert((k as u32) as int == k);
    let p = k * 8991;
    let l = 60 * mf - k;
    let d = n / p;
    let r = n % p;
    lemma_fundamental_div_mod(n, p);
    assert(d >= 0) by (nonlinear_arith)
        requires
            n >= 0,
            p > 0,
            d == n / p,
    ;
    let a = adjusted_count(k, n);
    if r < k {
        assert((r + k - k) / l == 0) by (nonlinear_arith)
            requires
                0 <= r < k <= l,
        ;
        assert(a == n + 9 * k * d);
        assert(a == d * 10 * (60 * mf) + r) by (nonlinear_arith)
            requires
                a == n + 9 * k * d,
                n == p * d + r,
                600 * mf == p + 9 * k,
        ;
        lemma_minute_of(a, mf, 10 * d, r);
        assert((10 * d) / 10 == d);
        assert(dropped_labels(10 * d, Some(k as u32)) == 9 * d * k) by (nonlinear_arith)
            requires
                (10 * d) / 10 == d,
                dropped_labels(10 * d, Some(k as u32)) == (10 * d - (10 * d) / 10) * k,
        ;
        assert(9 * k * d >= 0) by (nonlinear_arith)
            requires
                k > 0,
                d >= 0,
        ;
        assert((10 * d) % 10 == 0);
        assert(a - dropped_labels(a / mf / 60, Some(k as u32)) == n) by (nonlinear_arith)
            requires
                a / mf / 60 == 10 * d,
                dropped_labels(10 * d, Some(k as u32)) == 9 * d * k,
                a == n + 9 * k * d,
        ;
    } else {
        let q = (r - k) / l;
        let t = (r - k) % l;
        lemma_fundamental_div_mod(r - k, l);
        assert(0 <= q < 10) by (nonlinear_arith)
            requires
                r - k == l * q + t,
                0 <= t < l,
                0 <= r - k < p - k,
                p - k == 10 * l,
                l > 0,
        ;
        assert(a == n + 9 * k * d + k * q);
        assert(a == (10 * d + q) * (60 * mf) + (k + t)) by (nonlinear_arith)
            requires
                a == n + 9 * k * d + k * q,
                n == p * d + r,
                r - k == l * q + t,
                600 * mf == p + 9 * k,
                l == 60 * mf - k,
        ;
        lemma_minute_of(a, mf, 10 * d + q, k + t);
        assert((10 * d + q) / 10 == d);
        assert((10 * d + q) % 10 == q);
        assert(dropped_labels(10 * d + q, Some(k as u32)) == (9 * d + q) * k) by (nonlinear_arith)
            requires
                (10 * d + q) / 10 == d,
                dropped_labels(10 * d + q, Some(k as u32)) == (10 * d + q - (10 * d + q) / 10)
                    * k,
        ;
        assert(9 * k * d + k * q >= 0) by (nonlinear_arith)
            requires
                k > 0,
                d >= 0,
                q >= 0,
        ;
        assert(a - (10 * d + q) * (60 * mf) == k + t) by (nonlinear_arith)
            requires
                a == (10 * d + q) * (60 * mf) + (k + t),
        ;
        assert(a - dropped_labels(a / mf / 60, Some(k as u32)) == n) by (nonlinear_arith)
            requires
                a / mf / 60 == 10 * d + q,
                dropped_labels(10 * d + q, Some(k as u32)) == (9 * d + q) * k,
                a == n + 9 * k * d + k * q,
        ;
    }
}

/// At an exact rate, the count of a label that is not skipped, corrected again, is
/// the label's position.
pub proof fn lemma_adjusted_backward(h: int, m: int, s: int, f: int, mf: int, k: int)
    requires
        0 <= h,
        0 <= m < 60,
        0 <= s < 60,
        0 <= f < mf,
        0 < k <= u32::MAX,
        exact_rate(mf, Some(k as u32)),
        !in_dropped_window(m, s, f, Some(k as u32)),
    ensures
        adjusted_count(k, frame_count_of(h, m, s, f, mf, Some(k as u32))) == nominal_count(
            h,
            m,
            s,
            f,
            mf,
        ),
        frame_count_of(h, m, s, f, mf, Some(k as u32)) >= 0,
        frame_count_of(h, m, s, f, mf, Some(k as u32)) < (k * 8991) * ((h * 60 + m) / 10 + 1),
{
    lemma_exact_constants(mf, k);
    let p = k * 8991;
    let l = 60 * mf - k;
    let mm = h * 60 + m;
    let dd = mm / 10;
    let qq = mm % 10;
    let w = s * mf + f;
    lemma_fundamental_div_mod(mm, 10);
    assert(mm == 10 * dd + qq);
    assert(0 <= w < 60 * mf) by (nonlinear_arith)
        requires
            0 <= s < 60,
            0 <= f < mf,
            w == s * mf + f,
    ;
    assert(dd >= 0);
    let nom = nominal_count(h, m, s, f, mf);
    let n = frame_count_of(h, m, s, f, mf, Some(k as u32));
    assert(nom == (mm * 60 + s) * mf + f);
    assert(n == nom - (mm - dd) * k);
    assert(nom == dd * (600 * mf) + qq * (60 * mf) + w) by (nonlinear_arith)
        requires
            nom == (mm * 60 + s) * mf + f,
            mm == 10 * dd + qq,
            w == s * mf + f,
    ;
    assert(n == p * dd + (qq * l + w)) by (nonlinear_arith)
        requires
            n == nom - (mm - dd) * k,
            nom == dd * (600 * mf) + qq * (60 * mf) + w,
            mm == 10 * dd + qq,
            600 * mf == p + 9 * k,
            l == 60 * mf - k,
    ;
    assert(0 <= qq * l + w < p) by (nonlinear_arith)
        requires
            0 <= qq < 10,
            l >= k > 0,
            0 <= w < l + k,
            p == 10 * l + k,
    ;
    lemma_fundamental_div_mod_converse(n, p, dd, qq * l + w);
    assert(n < p * (dd + 1)) by (nonlinear_arith)
        requires
            n == p * dd + (qq * l + w),
            qq * l + w < p,
    ;
    assert(n >= 0) by (nonlinear_arith)
        requires
            n == p * dd + (qq * l + w),
            dd >= 0,
            p > 0,
            0 <= qq * l + w,
    ;
    if qq == 0 {
        assert(mm - dd == 9 * dd);
        assert(qq * l + w == w) by (nonlinear_arith)
            requires
                qq == 0,
        ;
        if w < k {
            assert((w + k - k) / l == 0) by (nonlinear_arith)
                requires
                    0 <= w < k <= l,
            ;
        } else {
            assert((w - k) / l == 0) by (nonlinear_arith)
                requires
                    0 <= w - k < l,
            ;
        }
        assert(nom - n == 9 * k * dd) by (nonlinear_arith)
            requires
                nom - n == (mm - dd) * k,
                mm - dd == 9 * dd,
        ;
        assert(adjusted_count(k, n) == n + 9 * k * dd);
    } else {
        assert(m % 10 != 0) by {
            assert(mm % 10 == m % 10) by (nonlinear_arith)
                requires
                    mm == h * 60 + m,
                    h >= 0,
                    0 <= m,
            {
                assert(h * 60 + m == (h * 6) * 10 + m);
            }
        }
        assert((k as u32) as int == k);
        assert(in_dropped_window(m, s, f, Some(k as u32)) == (m % 10 != 0 && s == 0 && f < k));
        assert(!(s == 0 && f < k));
        if s == 0 {
            assert(w == f);
        } else {
            assert(s * mf >= mf) by (nonlinear_arith)
                requires
                    s >= 1,
                    mf > 0,
            ;
        }
        assert(w >= k);
        assert(qq * l + w >= k) by (nonlinear_arith)
            requires
                qq >= 0,
                l >= 0,
                w >= k,
        ;
        assert((qq * l + w - k) / l == qq) by {
            assert(qq * l + w - k == qq * l + (w - k));
            lemma_fundamental_div_mod_converse(qq * l + w - k, l, qq, w - k);
        }
        assert(nom - n == 9 * k * dd + k * qq) by (nonlinear_arith)
            requires
                nom - n == (mm - dd) * k,
                mm == 10 * dd + qq,
        ;
        assert(adjusted_count(k, n) == n + 9 * k * dd + k * qq);
    }
}

} // verus!
