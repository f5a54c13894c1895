//! Grapheme-aware cell text assembly.
//!
//! Cell widths are measured in user-perceived characters (grapheme
//! clusters), not bytes or code points, so multi-byte glyphs stay aligned.
//! Segmentation itself comes from the unicode-segmentation crate; the
//! library names its result and builds on that name.

use vstd::prelude::*;
use vstd::string::StringExecFns;
use unicode_segmentation::UnicodeSegmentation;

verus! {

/// The extended grapheme clusters of a string, in order. Segmentation
/// partitions the string: concatenating the clusters gives the string back.
/// What the clusters are is known only through the functions below.
pub uninterp spec fn grapheme_clusters(s: Seq<char>) -> Seq<Seq<char>>;

/// `s` truncated to its first `n` grapheme clusters; all of `s` when it has
/// no more than `n`.
pub open spec fn spec_take_graphemes(s: Seq<char>, n: int) -> Seq<char> {
    if n >= grapheme_clusters(s).len() {
        s
    } else {
        grapheme_clusters(s).take(n).flatten()
    }
}

/// `s` repeated `k` times.
pub open spec fn spec_repeat(s: Seq<char>, k: int) -> Seq<char>
    decreases k,
{
    if k <= 0 {
        Seq::empty()
    } else {
        spec_repeat(s, k - 1) + s
    }
}

/// The fixed text of one glyph cell: the glyph repeated `width` times, then
/// clipped to `width` grapheme clusters.
pub open spec fn spec_cell_text(glyph: Seq<char>, width: int) -> Seq<char> {
    spec_take_graphemes(spec_repeat(glyph, width), width)
}

/// Relies on unicode_segmentation's `graphemes(true)`: counts the extended
/// grapheme clusters of the string.
#[verifier::external_body]
pub fn grapheme_count(s: &str) -> (r: usize)
    ensures
        r == grapheme_clusters(s@).len(),
{
    s.graphemes(true).count()
}

/// Relies on unicode_segmentation's `graphemes(true)`: keeps the first `n`
/// extended grapheme clusters of the string. Because the clusters partition
/// the string, asking for at least as many clusters as there are returns
/// the string unchanged.
#[verifier::external_body]
pub fn take_graphemes(s: &str, n: usize) -> (r: String)
    ensures
        r@ == spec_take_graphemes(s@, n as int),
{
    s.graphemes(true).take(n).collect::<String>()
}

/// Repeat `input` `times` times, then clip the result to at most `times`
/// grapheme clusters, so a cell never grows past its fixed width.
pub fn repeat_string(input: &str, times: usize) -> (r: String)
    ensures
        r@ == spec_cell_text(input@, times as int),
{
    let mut combined = String::new();
    let mut i: usize = 0;
    while i < times
        invariant
            i <= times,
            combined@ == spec_repeat(input@, i as int),
        decreases times - i,
    {
        combined.append(input);
        i = i + 1;
    }
    let width = grapheme_count(combined.as_str());
    if width > times {
        take_graphemes(combined.as_str(), times)
    } else {
        combined
    }
}

/// The widest grapheme count among the first `n` strings of `levels`.
pub open spec fn spec_max_width(levels: Seq<Seq<char>>, n: int) -> int
    decreases n,
{
    if n <= 0 {
        0
    } else {
        let rest = spec_max_width(levels, n - 1);
        let this = grapheme_clusters(levels[n - 1]).len() as int;
        if this > rest {
            this
        } else {
            rest
        }
    }
}

/// The grapheme count of the widest string in `levels`; 0 when `levels` is
/// empty.
pub fn max_grapheme_width(levels: &Vec<String>) -> (r: usize)
    ensures
        r == spec_max_width(levels.deep_view(), levels@.len() as int),
{
    let mut widest: usize = 0;
    let mut i: usize = 0;
    while i < levels.len()
        invariant
            i <= levels@.len(),
            widest == spec_max_width(levels.deep_view(), i as int),
        decreases levels@.len() - i,
    {
        let this = grapheme_count(levels[i].as_str());
        if this > widest {
            widest = this;
        }
        proof {
            assert(levels.deep_view()[i as int] == levels@[i as int]@);
        }
        i = i + 1;
    }
    widest
}

} // verus!
