//! The fixed 16-entry terminal palette and nearest-color search.
//!
//! The palette is an ordered list, so nearest-color tie-breaking is
//! deterministic: of two entries at equal distance, the one listed first
//! wins. The order is the dark tones first (black, blue, green, cyan, red,
//! magenta, yellow, grey), then the bright ones, grey-as-bright-black and
//! bright white last.

use vstd::prelude::*;
use crate::color::{spec_euclidean_sq_rgb, spec_key_be, spec_manhattan_rgb, RGBColor};

verus! {

/// A color a classic terminal can name, or a direct 24-bit color.
#[derive(Clone, Copy, PartialEq, Eq, Structural, Debug)]
pub enum TerminalColor {
    Black,
    Blue,
    Green,
    Cyan,
    Red,
    Magenta,
    Yellow,
    White,
    BrightBlue,
    BrightGreen,
    BrightCyan,
    BrightRed,
    BrightMagenta,
    BrightYellow,
    BrightBlack,
    BrightWhite,
    TrueColor { red: u8, green: u8, blue: u8 },
}

/// How to measure the distance between two colors: over raw RGB channels,
/// or over the XYZ or L*a*b* transforms of them, each as a Euclidean or a
/// Manhattan metric.
#[derive(Clone, Copy, PartialEq, Eq, Structural, Debug)]
pub enum DistanceAlgorithm {
    RgbEuclidean,
    RgbManhattan,
    XyzEuclidean,
    XyzManhattan,
    LabEuclidean,
    LabManhattan,
}

/// The metrics whose distances are exact integers, computed and proved
/// inside this crate. The XYZ and L*a*b* metrics need floating-point
/// transforms, which live outside the verified library: their nearest-color
/// choices are handed in precomputed.
pub open spec fn spec_metric_is_exact(algorithm: DistanceAlgorithm) -> bool {
    algorithm is RgbEuclidean || algorithm is RgbManhattan
}

/// The distance between two colors under an exact metric: the squared
/// Euclidean distance (order-equivalent to the Euclidean distance) or the
/// Manhattan distance, both over red, green and blue only.
pub open spec fn spec_metric_dist(algorithm: DistanceAlgorithm, a: RGBColor, b: RGBColor) -> int {
    if algorithm is RgbManhattan {
        spec_manhattan_rgb(a, b)
    } else {
        spec_euclidean_sq_rgb(a, b)
    }
}

/// The number of palette entries.
pub open spec fn spec_palette_len() -> int {
    16
}

/// The 32-bit big-endian RGBA key of palette entry `i`.
pub open spec fn spec_palette_key(i: int) -> int {
    spec_key_be(spec_palette_color(i))
}

/// The color of palette entry `i`; alpha is 0 in every entry.
pub open spec fn spec_palette_color(i: int) -> RGBColor {
    let (red, green, blue): (u8, u8, u8) = if i == 0 {
        (0x00, 0x00, 0x00)
    } else if i == 1 {
        (0x00, 0x00, 0x80)
    } else if i == 2 {
        (0x00, 0x80, 0x00)
    } else if i == 3 {
        (0x00, 0x80, 0x80)
    } else if i == 4 {
        (0x80, 0x00, 0x00)
    } else if i == 5 {
        (0x80, 0x00, 0x80)
    } else if i == 6 {
        (0x80, 0x80, 0x00)
    } else if i == 7 {
        (0x80, 0x80, 0x80)
    } else if i == 8 {
        (0x00, 0x00, 0xFF)
    } else if i == 9 {
        (0x00, 0xFF, 0x00)
    } else if i == 10 {
        (0x00, 0xFF, 0xFF)
    } else if i == 11 {
        (0xFF, 0x00, 0x00)
    } else if i == 12 {
        (0xFF, 0x00, 0xFF)
    } else if i == 13 {
        (0xFF, 0xFF, 0x00)
    } else if i == 14 {
        (0xC0, 0xC0, 0xC0)
    } else {
        (0xFF, 0xFF, 0xFF)
    };
    RGBColor { red, green, blue, alpha: 0 }
}

/// The terminal color that palette entry `i` names.
pub open spec fn spec_palette_tag(i: int) -> TerminalColor {
    if i == 0 {
        TerminalColor::Black
    } else if i == 1 {
        TerminalColor::Blue
    } else if i == 2 {
        TerminalColor::Green
    } else if i == 3 {
        TerminalColor::Cyan
    } else if i == 4 {
        TerminalColor::Red
    } else if i == 5 {
        TerminalColor::Magenta
    } else if i == 6 {
        TerminalColor::Yellow
    } else if i == 7 {
        TerminalColor::White
    } else if i == 8 {
        TerminalColor::BrightBlue
    } else if i == 9 {
        TerminalColor::BrightGreen
    } else if i == 10 {
        TerminalColor::BrightCyan
    } else if i == 11 {
        TerminalColor::BrightRed
    } else if i == 12 {
        TerminalColor::BrightMagenta
    } else if i == 13 {
        TerminalColor::BrightYellow
    } else if i == 14 {
        TerminalColor::BrightBlack
    } else {
        TerminalColor::BrightWhite
    }
}

/// The index, among the first `n` colors of `set`, of the one closest to
/// `c`; on a tie the earlier index wins, as an ordered scan finds it.
pub open spec fn spec_nearest_upto(
    algorithm: DistanceAlgorithm,
    c: RGBColor,
    set: Seq<RGBColor>,
    n: int,
) -> int
    decreases n,
{
    if n <= 1 {
        0
    } else {
        let prev = spec_nearest_upto(algorithm, c, set, n - 1);
        if spec_metric_dist(algorithm, c, set[n - 1]) < spec_metric_dist(algorithm, c, set[prev]) {
            n - 1
        } else {
            prev
        }
    }
}

/// The index of the color of `set` closest to `c`; first index wins ties.
pub open spec fn spec_nearest_in(
    algorithm: DistanceAlgorithm,
    c: RGBColor,
    set: Seq<RGBColor>,
) -> int {
    spec_nearest_upto(algorithm, c, set, set.len() as int)
}

/// The colors of the palette, in palette order.
pub open spec fn spec_palette_colors() -> Seq<RGBColor> {
    Seq::new(16, |i: int| spec_palette_color(i))
}

/// The palette index whose color is closest to `c` under an exact metric.
pub open spec fn spec_nearest_palette_index(algorithm: DistanceAlgorithm, c: RGBColor) -> int {
    spec_nearest_in(algorithm, c, spec_palette_colors())
}

/// The nearest index is a first minimum: no entry is strictly closer, and
/// every earlier entry is strictly farther.
pub proof fn lemma_nearest_upto_props(
    algorithm: DistanceAlgorithm,
    c: RGBColor,
    set: Seq<RGBColor>,
    n: int,
)
    requires
        1 <= n <= set.len(),
    ensures
        0 <= spec_nearest_upto(algorithm, c, set, n) < n,
        forall|j: int|
            0 <= j < n ==> spec_metric_dist(algorithm, c, set[spec_nearest_upto(algorithm, c, set, n)])
                <= #[trigger] spec_metric_dist(algorithm, c, set[j]),
        forall|j: int|
            0 <= j < spec_nearest_upto(algorithm, c, set, n) ==> #[trigger] spec_metric_dist(
                algorithm,
                c,
                set[j],
            ) > spec_metric_dist(algorithm, c, set[spec_nearest_upto(algorithm, c, set, n)]),
    decreases n,
{
    if n > 1 {
        lemma_nearest_upto_props(algorithm, c, set, n - 1);
    }
}

/// An exact distance is zero exactly when the two colors agree on red,
/// green and blue: both metrics ignore alpha and see every channel
/// difference.
pub proof fn lemma_dist_zero_iff_rgb_equal(algorithm: DistanceAlgorithm, a: RGBColor, b: RGBColor)
    requires
        spec_metric_is_exact(algorithm),
    ensures
        spec_metric_dist(algorithm, a, b) == 0 <==> (a.red == b.red && a.green == b.green && a.blue
            == b.blue),
{
    let dr = crate::color::abs_diff(a.red as int, b.red as int);
    let dg = crate::color::abs_diff(a.green as int, b.green as int);
    let db = crate::color::abs_diff(a.blue as int, b.blue as int);
    assert(dr >= 0 && dg >= 0 && db >= 0);
    assert(dr * dr >= 0 && (dr > 0 ==> dr * dr > 0) && (dr == 0 ==> dr * dr == 0))
        by (nonlinear_arith)
        requires
            dr >= 0,
    ;
    assert(dg * dg >= 0 && (dg > 0 ==> dg * dg > 0) && (dg == 0 ==> dg * dg == 0))
        by (nonlinear_arith)
        requires
            dg >= 0,
    ;
    assert(db * db >= 0 && (db > 0 ==> db * db > 0) && (db == 0 ==> db * db == 0))
        by (nonlinear_arith)
        requires
            db >= 0,
    ;
}

/// No two palette entries share their red, green and blue channels: the
/// palette holds 16 distinct colors.
pub proof fn lemma_palette_entries_distinct(i: int, j: int)
    requires
        0 <= i < 16,
        0 <= j < 16,
        i != j,
    ensures
        !(spec_palette_color(i).red == spec_palette_color(j).red && spec_palette_color(i).green
            == spec_palette_color(j).green && spec_palette_color(i).blue == spec_palette_color(
            j,
        ).blue),
{
}

/// A color equal to a palette entry quantizes to that entry, at distance
/// zero, under each exact metric: the entry itself is at distance 0, every
/// other entry is strictly farther, and the ordered scan therefore lands
/// on it.
pub proof fn lemma_palette_self_quantizes(algorithm: DistanceAlgorithm, i: int)
    requires
        spec_metric_is_exact(algorithm),
        0 <= i < 16,
    ensures
        spec_nearest_palette_index(algorithm, spec_palette_color(i)) == i,
        spec_metric_dist(algorithm, spec_palette_color(i), spec_palette_color(i)) == 0,
{
    let c = spec_palette_color(i);
    lemma_dist_zero_iff_rgb_equal(algorithm, c, c);
    assert(spec_metric_dist(algorithm, c, c) == 0);
    lemma_nearest_upto_props(algorithm, c, spec_palette_colors(), 16);
    let u = spec_nearest_palette_index(algorithm, c);
    assert(spec_metric_dist(algorithm, c, spec_palette_colors()[i]) == 0);
    assert(spec_metric_dist(algorithm, c, spec_palette_colors()[u]) <= 0);
    assert(spec_metric_dist(algorithm, c, spec_palette_colors()[u]) >= 0) by {
        lemma_dist_nonneg(algorithm, c, spec_palette_colors()[u]);
    }
    if u != i {
        lemma_palette_entries_distinct(u, i);
        lemma_dist_zero_iff_rgb_equal(algorithm, c, spec_palette_color(u));
        assert(spec_metric_dist(algorithm, c, spec_palette_colors()[u]) != 0);
        assert(false);
    }
}

/// An exact distance is never negative.
pub proof fn lemma_dist_nonneg(algorithm: DistanceAlgorithm, a: RGBColor, b: RGBColor)
    requires
        spec_metric_is_exact(algorithm),
    ensures
        spec_metric_dist(algorithm, a, b) >= 0,
{
    let dr = crate::color::abs_diff(a.red as int, b.red as int);
    let dg = crate::color::abs_diff(a.green as int, b.green as int);
    let db = crate::color::abs_diff(a.blue as int, b.blue as int);
    assert(dr * dr >= 0 && dg * dg >= 0 && db * db >= 0) by (nonlinear_arith)
        requires
            dr >= 0 && dg >= 0 && db >= 0,
    ;
}

/// The color of palette entry `i`.
pub fn palette_color(i: usize) -> (r: RGBColor)
    requires
        i < 16,
    ensures
        r == spec_palette_color(i as int),
{
    let (red, green, blue): (u8, u8, u8) = match i {
        0 => (0x00, 0x00, 0x00),
        1 => (0x00, 0x00, 0x80),
        2 => (0x00, 0x80, 0x00),
        3 => (0x00, 0x80, 0x80),
        4 => (0x80, 0x00, 0x00),
        5 => (0x80, 0x00, 0x80),
        6 => (0x80, 0x80, 0x00),
        7 => (0x80, 0x80, 0x80),
        8 => (0x00, 0x00, 0xFF),
        9 => (0x00, 0xFF, 0x00),
        10 => (0x00, 0xFF, 0xFF),
        11 => (0xFF, 0x00, 0x00),
        12 => (0xFF, 0x00, 0xFF),
        13 => (0xFF, 0xFF, 0x00),
        14 => (0xC0, 0xC0, 0xC0),
        _ => (0xFF, 0xFF, 0xFF),
    };
    RGBColor { red, green, blue, alpha: 0 }
}

/// The 32-bit big-endian RGBA key of palette entry `i`.
pub fn palette_key(i: usize) -> (r: u32)
    requires
        i < 16,
    ensures
        r == spec_palette_key(i as int),
{
    let c = palette_color(i);
    c.to_u32(true)
}

/// The terminal color that palette entry `i` names.
pub fn palette_tag(i: usize) -> (r: TerminalColor)
    requires
        i < 16,
    ensures
        r == spec_palette_tag(i as int),
{
    match i {
        0 => TerminalColor::Black,
        1 => TerminalColor::Blue,
        2 => TerminalColor::Green,
        3 => TerminalColor::Cyan,
        4 => TerminalColor::Red,
        5 => TerminalColor::Magenta,
        6 => TerminalColor::Yellow,
        7 => TerminalColor::White,
        8 => TerminalColor::BrightBlue,
        9 => TerminalColor::BrightGreen,
        10 => TerminalColor::BrightCyan,
        11 => TerminalColor::BrightRed,
        12 => TerminalColor::BrightMagenta,
        13 => TerminalColor::BrightYellow,
        14 => TerminalColor::BrightBlack,
        _ => TerminalColor::BrightWhite,
    }
}

/// All 16 palette colors as a vector, in palette order.
pub fn console_colors() -> (r: Vec<RGBColor>)
    ensures
        r@ == spec_palette_colors(),
{
    let mut out: Vec<RGBColor> = Vec::new();
    let mut i: usize = 0;
    while i < 16
        invariant
            i <= 16,
            out@.len() == i,
            forall|j: int| 0 <= j < i ==> out@[j] == #[trigger] spec_palette_color(j),
        decreases 16 - i,
    {
        out.push(palette_color(i));
        i = i + 1;
    }
    proof {
        assert(out@ =~= spec_palette_colors());
    }
    out
}

/// The distance between two colors under an exact metric.
pub fn metric_distance(algorithm: DistanceAlgorithm, a: &RGBColor, b: &RGBColor) -> (r: u32)
    requires
        spec_metric_is_exact(algorithm),
    ensures
        r == spec_metric_dist(algorithm, *a, *b),
{
    match algorithm {
        DistanceAlgorithm::RgbManhattan => a.get_manhattan_distance_rgb(b),
        _ => a.get_euclidean_distance_sq_rgb(b),
    }
}

impl RGBColor {
    /// The index of the color of `to_compare` closest to `self` under the
    /// given exact metric, or nothing when the set is empty. On a tie the
    /// earliest index wins.
    pub fn get_closest_in_set(&self, to_compare: &Vec<RGBColor>, algorithm: DistanceAlgorithm) -> (r:
        Option<usize>)
        requires
            spec_metric_is_exact(algorithm),
        ensures
            r is None <==> to_compare@.len() == 0,
            r matches Some(i) ==> i == spec_nearest_in(algorithm, *self, to_compare@),
    {
        if to_compare.len() == 0 {
            return None;
        }
        let mut best: usize = 0;
        let mut best_dist: u32 = metric_distance(algorithm, self, &to_compare[0]);
        let mut j: usize = 1;
        while j < to_compare.len()
            invariant
                1 <= j <= to_compare@.len(),
                spec_metric_is_exact(algorithm),
                best == spec_nearest_upto(algorithm, *self, to_compare@, j as int),
                best < j,
                best_dist == spec_metric_dist(algorithm, *self, to_compare@[best as int]),
            decreases to_compare@.len() - j,
        {
            let d = metric_distance(algorithm, self, &to_compare[j]);
            if d < best_dist {
                best = j;
                best_dist = d;
            }
            j = j + 1;
        }
        Some(best)
    }
}

/// The palette index whose color is closest to `c` under an exact metric.
pub fn nearest_palette_index(c: &RGBColor, algorithm: DistanceAlgorithm) -> (r: usize)
    requires
        spec_metric_is_exact(algorithm),
    ensures
        r == spec_nearest_palette_index(algorithm, *c),
        r < 16,
{
    let mut best: usize = 0;
    let mut best_dist: u32 = metric_distance(algorithm, c, &palette_color(0));
    let mut j: usize = 1;
    while j < 16
        invariant
            1 <= j <= 16,
            spec_metric_is_exact(algorithm),
            best == spec_nearest_upto(algorithm, *c, spec_palette_colors(), j as int),
            best < j,
            best_dist == spec_metric_dist(algorithm, *c, spec_palette_colors()[best as int]),
        decreases 16 - j,
    {
        let d = metric_distance(algorithm, c, &palette_color(j));
        if d < best_dist {
            best = j;
            best_dist = d;
        }
        j = j + 1;
    }
    proof {
        lemma_nearest_upto_props(algorithm, *c, spec_palette_colors(), 16);
    }
    best
}

/// The index of the least key of `keys`, earliest index winning ties, or
/// nothing when `keys` is empty. The keys stand for distances computed
/// outside the library (the XYZ and L*a*b* metrics), in any encoding that
/// preserves their order.
pub fn nearest_index_of_keys(keys: &Vec<u64>) -> (r: Option<usize>)
    ensures
        r is None <==> keys@.len() == 0,
        r matches Some(i) ==> 0 <= i < keys@.len() && (forall|j: int|
            0 <= j < keys@.len() ==> keys@[i as int] <= #[trigger] keys@[j]) && (forall|j: int|
            0 <= j < i ==> #[trigger] keys@[j] > keys@[i as int]),
{
    if keys.len() == 0 {
        return None;
    }
    let mut best: usize = 0;
    let mut best_key: u64 = keys[0];
    let mut j: usize = 1;
    while j < keys.len()
        invariant
            1 <= j <= keys@.len(),
            best < j,
            best_key == keys@[best as int],
            forall|k: int| 0 <= k < j ==> best_key <= #[trigger] keys@[k],
            forall|k: int| 0 <= k < best ==> #[trigger] keys@[k] > best_key,
        decreases keys@.len() - j,
    {
        let d = keys[j];
        if d < best_key {
            best = j;
            best_key = d;
        }
        j = j + 1;
    }
    Some(best)
}

} // verus!
