//! Opacity banding: maps an alpha value to a discrete glyph index.
//!
//! With `n` glyphs the opacity ratio alpha/255 partitions (0, 1] into `n`
//! equal bands in descending opacity: band `k` (zero-based) covers
//! ((n-k-1)/n, (n-k)/n]. Alpha 255 always lands in band 0, the most opaque
//! glyph; alpha 0 is fully transparent and gets no band at all. A ratio on
//! a band boundary belongs to the band that has it as its upper, more
//! opaque, endpoint. Exact integer arithmetic decides the band, so no
//! boundary can be missed: the result is always in range.

use vstd::prelude::*;

verus! {

/// The glyph band for an alpha value among `n` opacity levels: none when
/// there are no levels or the pixel is fully transparent, else
/// `n - ceil(alpha * n / 255)`, the zero-based band whose interval holds
/// alpha/255.
pub open spec fn spec_band(alpha: int, n: int) -> Option<int> {
    if n == 0 || alpha == 0 {
        None
    } else {
        Some(n - (alpha * n + 254) / 255)
    }
}

/// The glyph index for a pixel's alpha among `n` opacity levels, most
/// opaque first. The result is `spec_band(alpha, n)`, and a returned index
/// `k` always lies in range and satisfies the band inequalities
/// `255 * (n - k - 1) < alpha * n <= 255 * (n - k)`.
pub fn get_pixel_from_opacity(alpha: u8, n: usize) -> (r: Option<usize>)
    ensures
        r is Some <==> spec_band(alpha as int, n as int) is Some,
        r matches Some(k) ==> spec_band(alpha as int, n as int) == Some(k as int),
        r matches Some(k) ==> k < n && 255 * (n - k - 1) < alpha * n <= 255 * (n - k),
{
    if n == 0 || alpha == 0 {
        return None;
    }
    proof {
        assert((alpha as int) * (n as int) <= 255 * 0xFFFF_FFFF_FFFF_FFFFu64) by (nonlinear_arith)
            requires
                alpha <= 255,
                0 <= n <= 0xFFFF_FFFF_FFFF_FFFFu64,
        ;
    }
    let prod: u128 = (alpha as u128) * (n as u128);
    let q: u128 = (prod + 254) / 255;
    proof {
        assert(prod >= n) by (nonlinear_arith)
            requires
                prod == (alpha as u128) * (n as u128),
                alpha >= 1,
                n >= 1,
        ;
        assert(prod <= 255 * (n as int)) by (nonlinear_arith)
            requires
                prod == (alpha as u128) * (n as u128),
                alpha <= 255,
                n >= 0,
        ;
        assert(q >= 1);
        assert(q <= n as int);
        assert(255 * (q - 1) < prod <= 255 * q);
    }
    let k: usize = n - (q as usize);
    proof {
        assert(255 * ((n - k) as int - 1) < (alpha as int) * (n as int) <= 255 * ((n - k) as int));
    }
    Some(k)
}

/// Full opacity always lands in the first, most opaque band, and zero
/// opacity never gets a band: the two ends of the banding rule.
pub proof fn lemma_band_extremes(n: int)
    requires
        n >= 1,
    ensures
        spec_band(255, n) == Some(0int),
        spec_band(0, n) is None,
{
    assert((255 * n + 254) / 255 == n) by (nonlinear_arith)
        requires
            n >= 1,
    ;
}

/// An alpha ratio exactly on a band boundary (alpha * n a multiple of 255)
/// belongs to the band that has it as its upper endpoint: the more opaque
/// side of the boundary.
pub proof fn lemma_band_boundary(alpha: int, n: int, m: int)
    requires
        1 <= alpha <= 255,
        n >= 1,
        1 <= m <= n,
        alpha * n == 255 * m,
    ensures
        spec_band(alpha, n) == Some(n - m),
{
    assert((255 * m + 254) / 255 == m) by (nonlinear_arith)
        requires
            m >= 1,
    ;
}

} // verus!
