use vstd::prelude::*;

verus! {

/// The size that an image of `width` x `height` takes after a bounding-box
/// resize to `max_width` x `max_height`: unchanged when it already fits;
/// otherwise the longer axis (width on a tie) is set to its bound and the
/// other axis is scaled by the same ratio and floored.
pub open spec fn fitted(width: u32, height: u32, max_width: u32, max_height: u32) -> (u32, u32) {
    if width <= max_width && height <= max_height {
        (width, height)
    } else if width >= height {
        (max_width, (height as int * max_width as int / width as int) as u32)
    } else {
        ((width as int * max_height as int / height as int) as u32, max_height)
    }
}

/// Computes `fitted(width, height, max_width, max_height)`.
pub fn fitted_size(width: u32, height: u32, max_width: u32, max_height: u32) -> (r: (u32, u32))
    ensures
        r == fitted(width, height, max_width, max_height),
{
    if width <= max_width && height <= max_height {
        (width, height)
    } else if width >= height {
        proof {
            lemma_scaled_within(height as int, max_width as int, width as int);
        }
        let h = (height as u64) * (max_width as u64) / (width as u64);
        (max_width, h as u32)
    } else {
        proof {
            lemma_scaled_within(width as int, max_height as int, height as int);
        }
        let w = (width as u64) * (max_height as u64) / (height as u64);
        (w as u32, max_height)
    }
}

/// `a * m / b` lies in `0..=m` when `0 <= a <= b` and `b > 0`, and the
/// product of two `u32` values fits in a `u64`.
proof fn lemma_scaled_within(a: int, m: int, b: int)
    requires
        0 <= a <= b,
        0 < b,
        0 <= m <= u32::MAX,
        b <= u32::MAX,
    ensures
        0 <= a * m / b <= m,
        a * m <= u64::MAX,
{
    assert(a * m <= b * m) by (nonlinear_arith)
        requires 0 <= a <= b, 0 <= m;
    assert(a * m <= u32::MAX * u32::MAX) by (nonlinear_arith)
        requires 0 <= a <= u32::MAX, 0 <= m <= u32::MAX;
    assert(0 <= a * m) by (nonlinear_arith)
        requires 0 <= a, 0 <= m;
    assert(a * m / b <= m) by (nonlinear_arith)
        requires a * m <= b * m, 0 < b;
    assert(0 <= a * m / b) by (nonlinear_arith)
        requires 0 <= a * m, 0 < b;
}

/// `a * m / b < m` when `0 <= a < b` and `m > 0`.
proof fn lemma_scaled_below(a: int, m: int, b: int)
    requires
        0 <= a < b,
        0 < m,
    ensures
        a * m / b < m,
{
    assert(a * m < b * m) by (nonlinear_arith)
        requires 0 <= a < b, 0 < m;
    assert(a * m / b < m) by (nonlinear_arith)
        requires a * m < b * m, 0 < b, 0 <= a * m;
}

/// `a * m / m == a` for `m > 0`.
proof fn lemma_scale_by_one(a: int, m: int)
    requires
        0 <= a,
        0 < m,
    ensures
        a * m / m == a,
{
    assert(a * m / m == a) by (nonlinear_arith)
        requires 0 <= a, 0 < m;
}

/// Fitting a size that was already fitted to the same bounds changes nothing.
pub proof fn lemma_fitted_idempotent(width: u32, height: u32, max_width: u32, max_height: u32)
    ensures
        ({
            let (w1, h1) = fitted(width, height, max_width, max_height);
            fitted(w1, h1, max_width, max_height) == (w1, h1)
        }),
{
    let (w1, h1) = fitted(width, height, max_width, max_height);
    if width <= max_width && height <= max_height {
    } else if width >= height {
        lemma_scaled_within(height as int, max_width as int, width as int);
        if h1 > max_height {
            lemma_scale_by_one(h1 as int, max_width as int);
        }
    } else {
        lemma_scaled_within(width as int, max_height as int, height as int);
        if max_height > 0 {
            lemma_scaled_below(width as int, max_height as int, height as int);
        }
        if w1 > max_width {
            lemma_scale_by_one(w1 as int, max_height as int);
        }
    }
}

} // verus!
