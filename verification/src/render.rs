//! The console compositor: walks the decoded pixel grid in display scan
//! order and turns every pixel into one styled text cell.
//!
//! "Top" and "left" follow the signs of the declared height and width: a
//! positive height means row 0 of the pixel sequence is the bottom-most
//! displayed row, a negative height flips that; the same rule applies to
//! columns independently. Each cell carries its text (a glyph repeated and
//! clipped to a fixed grapheme width), a foreground color (a direct 24-bit
//! color, or the nearest of the 16 palette entries), and an optional
//! background color. A pixel whose displayed color equals the configured
//! transparency key, or whose alpha is 0, shows blank text instead of its
//! glyph.

use vstd::prelude::*;
use crate::bitmap::BitMapRaw;
use crate::color::{spec_color_from_key_be, spec_key_be, RGBColor};
use crate::decode::spec_abs;
use crate::opacity::{get_pixel_from_opacity, spec_band};
use crate::palette::{
    nearest_palette_index, palette_key, palette_tag, spec_metric_is_exact,
    spec_nearest_palette_index, spec_palette_key, spec_palette_tag, DistanceAlgorithm,
    TerminalColor,
};
use crate::text::{max_grapheme_width, repeat_string, spec_cell_text, spec_max_width};

verus! {

/// Settings for rendering a decoded bitmap to console cells.
pub struct BitMapRawDrawToConsoleSettings {
    /// A 32-bit big-endian RGBA color key: pixels displayed in this color
    /// are drawn as blank space.
    pub transparency: Option<u32>,
    /// Whether to style cells with direct 24-bit color instead of the 16
    /// fixed terminal colors.
    pub use_truecolor: bool,
    /// How many times each opacity glyph is repeated per cell.
    pub pixel_width: u32,
    /// The glyphs for the opacity bands, most opaque first.
    pub opacity_levels: Vec<String>,
    /// A 32-bit big-endian RGBA color key for the console background.
    pub background: Option<u32>,
    /// The distance metric for nearest-color search.
    pub algorithm: DistanceAlgorithm,
}

/// The caller-facing settings, with the transparency and background colors
/// already adjusted to what the terminal will display: in palette mode both
/// are replaced by their nearest palette entry, whose index and terminal
/// color are kept alongside.
pub struct ResolvedDrawSettings {
    /// The transparency key, pre-quantized in palette mode.
    pub transparency: Option<u32>,
    /// The background key, pre-quantized in palette mode.
    pub background: Option<u32>,
    /// The palette index of the background color; nothing in truecolor
    /// mode or without a background.
    pub background_index: Option<u8>,
    /// The color every cell's background is styled with.
    pub background_tag: Option<TerminalColor>,
}

/// A key with its low (alpha) byte forced to full opacity, as the
/// transparency and background keys are before quantization.
pub open spec fn spec_with_full_alpha(v: int) -> int {
    (v / 0x100) * 0x100 + 0xFF
}

/// The background fill color: the (adjusted) background key as a color,
/// fully opaque.
pub open spec fn spec_bg_fill_color(v: int) -> RGBColor {
    let c = spec_color_from_key_be(v);
    RGBColor { red: c.red, green: c.green, blue: c.blue, alpha: 255 }
}

/// Which pixel of the grid (in file scan order) is shown at display row
/// `jt` and display column `it`, for the declared (signed) width and
/// height.
pub open spec fn spec_source_index(w: int, h: int, jt: int, it: int) -> int {
    let m = spec_abs(h);
    let n = spec_abs(w);
    let j = if h < 0 {
        m - 1 - jt
    } else {
        jt
    };
    let i = if w < 0 {
        n - 1 - it
    } else {
        it
    };
    n * (m - j - 1) + i
}

/// One rendered cell, at the specification level.
pub struct SpecCell {
    pub text: Seq<char>,
    pub foreground: TerminalColor,
    pub background: Option<TerminalColor>,
}

/// The cell a single pixel renders to.
///
/// `pixel_index` is the pixel's nearest palette index (ignored in truecolor
/// mode). The glyph comes from the pixel's opacity band; a band-less pixel
/// shows a dot over a configured background, else a blank. The foreground
/// is the direct color in truecolor mode and the palette entry's color
/// otherwise. The cell text goes blank when the displayed color equals the
/// adjusted transparency key — compared post-quantization in palette mode —
/// or, with no transparency configured, when the source color is fully
/// transparent.
pub open spec fn spec_render_cell(
    p: RGBColor,
    pixel_index: Option<u8>,
    levels: Seq<Seq<char>>,
    cell_width: int,
    use_truecolor: bool,
    resolved: ResolvedDrawSettings,
) -> SpecCell {
    let band = spec_band(p.alpha as int, levels.len() as int);
    let use_bg = band is None && resolved.background is Some;
    let source = if use_bg {
        spec_bg_fill_color(match resolved.background {
            Some(v) => v as int,
            None => 0,
        })
    } else {
        p
    };
    let idx = if use_bg {
        match resolved.background_index {
            Some(i) => i as int,
            None => 0,
        }
    } else {
        match pixel_index {
            Some(i) => i as int,
            None => 0,
        }
    };
    let base = match band {
        Some(k) => levels[k],
        None => if use_bg {
            seq!['.']
        } else {
            seq![' ']
        },
    };
    let fg = if use_truecolor {
        TerminalColor::TrueColor { red: source.red, green: source.green, blue: source.blue }
    } else {
        spec_palette_tag(idx)
    };
    let c_num = if use_truecolor {
        spec_key_be(source)
    } else {
        spec_palette_key(idx)
    };
    let transparent = (match resolved.transparency {
        Some(t) => t == c_num,
        None => source.alpha == 0,
    }) || source.alpha == 0;
    let text = if transparent {
        spec_cell_text(seq![' '], cell_width)
    } else {
        spec_cell_text(base, cell_width)
    };
    SpecCell { text, foreground: fg, background: resolved.background_tag }
}

/// One rendered cell: its text, its foreground color, and the background
/// color it is styled with, if any.
pub struct ConsoleCell {
    pub text: String,
    pub foreground: TerminalColor,
    pub background: Option<TerminalColor>,
}

impl BitMapRawDrawToConsoleSettings {
    /// Create settings with the given values.
    pub fn new(
        transparency: Option<u32>,
        use_truecolor: bool,
        pixel_width: u32,
        opacity_levels: Vec<String>,
        background: Option<u32>,
        algorithm: DistanceAlgorithm,
    ) -> (r: BitMapRawDrawToConsoleSettings)
        ensures
            r.transparency == transparency,
            r.use_truecolor == use_truecolor,
            r.pixel_width == pixel_width,
            r.opacity_levels == opacity_levels,
            r.background == background,
            r.algorithm == algorithm,
    {
        BitMapRawDrawToConsoleSettings {
            transparency,
            use_truecolor,
            pixel_width,
            opacity_levels,
            background,
            algorithm,
        }
    }

    /// Replace the transparency key.
    pub fn with_transparency(&mut self, transparency: Option<u32>)
        ensures
            *final(self) == (BitMapRawDrawToConsoleSettings { transparency, ..*old(self) }),
    {
        self.transparency = transparency;
    }

    /// Replace the truecolor switch.
    pub fn with_use_truecolor(&mut self, use_truecolor: bool)
        ensures
            *final(self) == (BitMapRawDrawToConsoleSettings { use_truecolor, ..*old(self) }),
    {
        self.use_truecolor = use_truecolor;
    }

    /// Replace the glyph repeat factor.
    pub fn with_pixel_width(&mut self, pixel_width: u32)
        ensures
            *final(self) == (BitMapRawDrawToConsoleSettings { pixel_width, ..*old(self) }),
    {
        self.pixel_width = pixel_width;
    }

    /// Replace the opacity glyphs.
    pub fn with_opacity_levels(&mut self, opacity_levels: Vec<String>)
        ensures
            final(self).opacity_levels == opacity_levels,
            final(self).transparency == old(self).transparency,
            final(self).use_truecolor == old(self).use_truecolor,
            final(self).pixel_width == old(self).pixel_width,
            final(self).background == old(self).background,
            final(self).algorithm == old(self).algorithm,
    {
        self.opacity_levels = opacity_levels;
    }

    /// Replace the background key.
    pub fn with_background(&mut self, background: Option<u32>)
        ensures
            *final(self) == (BitMapRawDrawToConsoleSettings { background, ..*old(self) }),
    {
        self.background = background;
    }

    /// Replace the distance metric.
    pub fn with_algorithm(&mut self, algorithm: DistanceAlgorithm)
        ensures
            *final(self) == (BitMapRawDrawToConsoleSettings { algorithm, ..*old(self) }),
    {
        self.algorithm = algorithm;
    }

    /// A copy of these settings with another transparency key. The copied
    /// glyphs read the same, character for character.
    pub fn clone_with_transparency(&self, transparency: Option<u32>) -> (r:
        BitMapRawDrawToConsoleSettings)
        ensures
            r.transparency == transparency,
            r.use_truecolor == self.use_truecolor,
            r.pixel_width == self.pixel_width,
            r.opacity_levels.deep_view() == self.opacity_levels.deep_view(),
            r.background == self.background,
            r.algorithm == self.algorithm,
    {
        BitMapRawDrawToConsoleSettings {
            transparency,
            use_truecolor: self.use_truecolor,
            pixel_width: self.pixel_width,
            opacity_levels: clone_levels(&self.opacity_levels),
            background: self.background,
            algorithm: self.algorithm,
        }
    }

    /// A copy of these settings with the truecolor switch replaced.
    pub fn clone_with_use_truecolor(&self, use_truecolor: bool) -> (r:
        BitMapRawDrawToConsoleSettings)
        ensures
            r.transparency == self.transparency,
            r.use_truecolor == use_truecolor,
            r.pixel_width == self.pixel_width,
            r.opacity_levels.deep_view() == self.opacity_levels.deep_view(),
            r.background == self.background,
            r.algorithm == self.algorithm,
    {
        BitMapRawDrawToConsoleSettings {
            transparency: self.transparency,
            use_truecolor,
            pixel_width: self.pixel_width,
            opacity_levels: clone_levels(&self.opacity_levels),
            background: self.background,
            algorithm: self.algorithm,
        }
    }

    /// A copy of these settings with another glyph repeat factor.
    pub fn clone_with_pixel_width(&self, pixel_width: u32) -> (r: BitMapRawDrawToConsoleSettings)
        ensures
            r.transparency == self.transparency,
            r.use_truecolor == self.use_truecolor,
            r.pixel_width == pixel_width,
            r.opacity_levels.deep_view() == self.opacity_levels.deep_view(),
            r.background == self.background,
            r.algorithm == self.algorithm,
    {
        BitMapRawDrawToConsoleSettings {
            transparency: self.transparency,
            use_truecolor: self.use_truecolor,
            pixel_width,
            opacity_levels: clone_levels(&self.opacity_levels),
            background: self.background,
            algorithm: self.algorithm,
        }
    }

    /// A copy of these settings with other opacity glyphs.
    pub fn clone_with_opacity_levels(&self, opacity_levels: Vec<String>) -> (r:
        BitMapRawDrawToConsoleSettings)
        ensures
            r.transparency == self.transparency,
            r.use_truecolor == self.use_truecolor,
            r.pixel_width == self.pixel_width,
            r.opacity_levels == opacity_levels,
            r.background == self.background,
            r.algorithm == self.algorithm,
    {
        BitMapRawDrawToConsoleSettings {
            transparency: self.transparency,
            use_truecolor: self.use_truecolor,
            pixel_width: self.pixel_width,
            opacity_levels,
            background: self.background,
            algorithm: self.algorithm,
        }
    }

    /// A copy of these settings with another background key.
    pub fn clone_with_background(&self, background: Option<u32>) -> (r:
        BitMapRawDrawToConsoleSettings)
        ensures
            r.transparency == self.transparency,
            r.use_truecolor == self.use_truecolor,
            r.pixel_width == self.pixel_width,
            r.opacity_levels.deep_view() == self.opacity_levels.deep_view(),
            r.background == background,
            r.algorithm == self.algorithm,
    {
        BitMapRawDrawToConsoleSettings {
            transparency: self.transparency,
            use_truecolor: self.use_truecolor,
            pixel_width: self.pixel_width,
            opacity_levels: clone_levels(&self.opacity_levels),
            background,
            algorithm: self.algorithm,
        }
    }

    /// A copy of these settings with another distance metric.
    pub fn clone_with_algorithm(&self, algorithm: DistanceAlgorithm) -> (r:
        BitMapRawDrawToConsoleSettings)
        ensures
            r.transparency == self.transparency,
            r.use_truecolor == self.use_truecolor,
            r.pixel_width == self.pixel_width,
            r.opacity_levels.deep_view() == self.opacity_levels.deep_view(),
            r.background == self.background,
            r.algorithm == algorithm,
    {
        BitMapRawDrawToConsoleSettings {
            transparency: self.transparency,
            use_truecolor: self.use_truecolor,
            pixel_width: self.pixel_width,
            opacity_levels: clone_levels(&self.opacity_levels),
            background: self.background,
            algorithm,
        }
    }

    /// The grapheme count of the widest opacity glyph.
    pub fn pixel_string_width(&self) -> (r: usize)
        ensures
            r == spec_max_width(self.opacity_levels.deep_view(), self.opacity_levels@.len() as int),
    {
        max_grapheme_width(&self.opacity_levels)
    }

    /// The width of one cell in grapheme clusters: the widest glyph times
    /// the configured repeat factor.
    pub open spec fn spec_cell_width(&self) -> int {
        spec_max_width(self.opacity_levels.deep_view(), self.opacity_levels@.len() as int)
            * self.pixel_width
    }
}

/// Adjust the transparency and background colors once, up front, for the
/// truecolor and exact-metric modes: in truecolor mode they pass through
/// unchanged; in palette mode each is forced fully opaque and replaced by
/// its nearest palette entry.
pub fn resolve_draw_settings(settings: &BitMapRawDrawToConsoleSettings) -> (r:
    ResolvedDrawSettings)
    requires
        settings.use_truecolor || spec_metric_is_exact(settings.algorithm),
    ensures
        settings.use_truecolor ==> r == spec_resolved_truecolor(
            settings.transparency,
            settings.background,
        ),
        !settings.use_truecolor ==> r == spec_resolved_palette(
            settings.transparency,
            settings.background,
            settings.algorithm,
        ),
{
    if settings.use_truecolor {
        let background_tag = match settings.background {
            None => None,
            Some(v) => {
                let c = RGBColor::from_u32(v, true);
                Some(TerminalColor::TrueColor { red: c.red, green: c.green, blue: c.blue })
            },
        };
        ResolvedDrawSettings {
            transparency: settings.transparency,
            background: settings.background,
            background_index: None,
            background_tag,
        }
    } else {
        let transparency = match settings.transparency {
            None => None,
            Some(t) => {
                let c = RGBColor::from_u32(t / 0x100 * 0x100 + 0xFF, true);
                let i = nearest_palette_index(&c, settings.algorithm);
                Some(palette_key(i))
            },
        };
        let (background, background_index, background_tag) = match settings.background {
            None => (None, None, None),
            Some(v) => {
                let c = RGBColor::from_u32(v / 0x100 * 0x100 + 0xFF, true);
                let i = nearest_palette_index(&c, settings.algorithm);
                (Some(palette_key(i)), Some(i as u8), Some(palette_tag(i)))
            },
        };
        ResolvedDrawSettings { transparency, background, background_index, background_tag }
    }
}

/// What resolving leaves in truecolor mode: the keys unchanged, and the
/// background styled with its direct color.
pub open spec fn spec_resolved_truecolor(
    transparency: Option<u32>,
    background: Option<u32>,
) -> ResolvedDrawSettings {
    ResolvedDrawSettings {
        transparency,
        background,
        background_index: None,
        background_tag: match background {
            None => None,
            Some(v) => {
                let c = spec_color_from_key_be(v as int);
                Some(TerminalColor::TrueColor { red: c.red, green: c.green, blue: c.blue })
            },
        },
    }
}

/// What resolving computes in palette mode under an exact metric: each key
/// is forced fully opaque, quantized, and replaced by its palette entry.
pub open spec fn spec_resolved_palette(
    transparency: Option<u32>,
    background: Option<u32>,
    algorithm: DistanceAlgorithm,
) -> ResolvedDrawSettings {
    let t = match transparency {
        None => None,
        Some(t) => Some(
            spec_palette_key(
                spec_nearest_palette_index(
                    algorithm,
                    spec_color_from_key_be(spec_with_full_alpha(t as int)),
                ),
            ) as u32,
        ),
    };
    match background {
        None => ResolvedDrawSettings {
            transparency: t,
            background: None,
            background_index: None,
            background_tag: None,
        },
        Some(v) => {
            let i = spec_nearest_palette_index(
                algorithm,
                spec_color_from_key_be(spec_with_full_alpha(v as int)),
            );
            ResolvedDrawSettings {
                transparency: t,
                background: Some(spec_palette_key(i) as u32),
                background_index: Some(i as u8),
                background_tag: Some(spec_palette_tag(i)),
            }
        },
    }
}

/// Build resolved settings from nearest-palette indices computed outside
/// the library, for the metrics whose distances the library cannot
/// evaluate: each supplied index stands for the nearest palette entry to
/// the corresponding fully-opaque key.
pub fn resolve_draw_settings_with_indices(
    settings: &BitMapRawDrawToConsoleSettings,
    transparency_index: Option<u8>,
    background_index: Option<u8>,
) -> (r: ResolvedDrawSettings)
    requires
        !settings.use_truecolor,
        transparency_index is Some <==> settings.transparency is Some,
        background_index is Some <==> settings.background is Some,
        transparency_index matches Some(i) ==> i < 16,
        background_index matches Some(i) ==> i < 16,
    ensures
        r.transparency matches Some(t) <==> settings.transparency is Some,
        r.background matches Some(v) <==> settings.background is Some,
        transparency_index matches Some(i) ==> r.transparency == Some(
            spec_palette_key(i as int) as u32,
        ),
        background_index matches Some(i) ==> r.background == Some(spec_palette_key(i as int) as u32)
            && r.background_index == Some(i) && r.background_tag == Some(spec_palette_tag(i as int)),
        r.background_index == background_index,
        settings.background is None ==> r.background_tag is None && r.background_index is None,
{
    let transparency = match transparency_index {
        None => None,
        Some(i) => Some(palette_key(i as usize)),
    };
    let (background, background_tag) = match background_index {
        None => (None, None),
        Some(i) => (Some(palette_key(i as usize)), Some(palette_tag(i as usize))),
    };
    ResolvedDrawSettings { transparency, background, background_index, background_tag }
}

/// Render one pixel to its console cell, exactly as `spec_render_cell`
/// describes it.
fn render_cell(
    p: RGBColor,
    pixel_index: Option<u8>,
    settings: &BitMapRawDrawToConsoleSettings,
    resolved: &ResolvedDrawSettings,
    cell_width: usize,
) -> (c: ConsoleCell)
    requires
        !settings.use_truecolor ==> (pixel_index matches Some(i) && i < 16),
        !settings.use_truecolor && resolved.background is Some ==> (resolved.background_index
            matches Some(i) && i < 16),
    ensures
        ({
            let sc = spec_render_cell(
                p,
                pixel_index,
                settings.opacity_levels.deep_view(),
                cell_width as int,
                settings.use_truecolor,
                *resolved,
            );
            c.text@ == sc.text && c.foreground == sc.foreground && c.background == sc.background
        }),
{
    let n = settings.opacity_levels.len();
    let band = get_pixel_from_opacity(p.alpha, n);
    let use_bg = band.is_none() && resolved.background.is_some();
    let source: RGBColor = if use_bg {
        let v = match resolved.background {
            Some(v) => v,
            None => 0,
        };
        let c = RGBColor::from_u32(v, true);
        RGBColor { red: c.red, green: c.green, blue: c.blue, alpha: 255 }
    } else {
        p
    };
    let idx: usize = if use_bg {
        match resolved.background_index {
            Some(i) => i as usize,
            None => 0,
        }
    } else {
        match pixel_index {
            Some(i) => i as usize,
            None => 0,
        }
    };
    let foreground = if settings.use_truecolor {
        TerminalColor::TrueColor { red: source.red, green: source.green, blue: source.blue }
    } else {
        palette_tag(idx)
    };
    let c_num: u32 = if settings.use_truecolor {
        source.to_u32(true)
    } else {
        palette_key(idx)
    };
    let transparent = (match resolved.transparency {
        Some(t) => t == c_num,
        None => source.alpha == 0,
    }) || source.alpha == 0;
    proof {
        reveal_strlit(" ");
        reveal_strlit(".");
        assert(" "@ =~= seq![' ']);
        assert("."@ =~= seq!['.']);
    }
    let text: String = if transparent {
        repeat_string(" ", cell_width)
    } else {
        match band {
            Some(k) => {
                proof {
                    assert(settings.opacity_levels.deep_view()[k as int]
                        == settings.opacity_levels@[k as int]@);
                }
                repeat_string(settings.opacity_levels[k].as_str(), cell_width)
            },
            None => {
                if use_bg {
                    repeat_string(".", cell_width)
                } else {
                    repeat_string(" ", cell_width)
                }
            },
        }
    };
    ConsoleCell { text, foreground, background: resolved.background_tag }
}

impl BitMapRaw {
    /// The nearest palette index of every pixel of the grid, in file scan
    /// order, under an exact metric.
    pub fn quantize_pixels(&self, algorithm: DistanceAlgorithm) -> (r: Vec<u8>)
        requires
            spec_metric_is_exact(algorithm),
        ensures
            r@.len() == self.pixel_data.pixels@.len(),
            forall|k: int|
                0 <= k < r@.len() ==> #[trigger] r@[k] == spec_nearest_palette_index(
                    algorithm,
                    self.pixel_data.pixels@[k],
                ) && r@[k] < 16,
    {
        let mut out: Vec<u8> = Vec::new();
        let mut k: usize = 0;
        let total = self.pixel_data.pixels.len();
        while k < total
            invariant
                k <= total,
                total == self.pixel_data.pixels@.len(),
                spec_metric_is_exact(algorithm),
                out@.len() == k,
                forall|j: int|
                    0 <= j < k ==> #[trigger] out@[j] == spec_nearest_palette_index(
                        algorithm,
                        self.pixel_data.pixels@[j],
                    ) && out@[j] < 16,
            decreases total - k,
        {
            let i = nearest_palette_index(&self.pixel_data.pixels[k], algorithm);
            out.push(i as u8);
            k = k + 1;
        }
        out
    }

    /// Render the whole grid to styled cells, one row of cells per display
    /// row, walking rows top to bottom and columns left to right as the
    /// signs of the declared height and width dictate.
    ///
    /// In palette mode `quantized` supplies each pixel's nearest palette
    /// index in file scan order (`quantize_pixels` computes it for the
    /// exact metrics); in truecolor mode it must be absent. The grid must
    /// be complete: a truncated image cannot be rendered.
    #[verifier::loop_isolation(false)]
    pub fn render_to_cells(
        &self,
        settings: &BitMapRawDrawToConsoleSettings,
        resolved: &ResolvedDrawSettings,
        quantized: Option<&Vec<u8>>,
    ) -> (out: Vec<Vec<ConsoleCell>>)
        requires
            self.pixel_data.pixels@.len() == spec_abs(self.info_header.width as int) * spec_abs(
                self.info_header.height as int,
            ),
            settings.use_truecolor <==> quantized is None,
            quantized matches Some(q) ==> q@.len() == self.pixel_data.pixels@.len() && forall|
                k: int,
            |
                0 <= k < q@.len() ==> #[trigger] q@[k] < 16,
            !settings.use_truecolor && resolved.background is Some ==> (resolved.background_index
                matches Some(i) && i < 16),
            settings.spec_cell_width() <= usize::MAX,
        ensures
            out@.len() == spec_abs(self.info_header.height as int),
            forall|jt: int|
                0 <= jt < out@.len() ==> #[trigger] out@[jt]@.len() == spec_abs(
                    self.info_header.width as int,
                ),
            forall|jt: int, it: int|
                0 <= jt < out@.len() && 0 <= it < out@[jt]@.len() ==> {
                    let k = spec_source_index(
                        self.info_header.width as int,
                        self.info_header.height as int,
                        jt,
                        it,
                    );
                    let sc = spec_render_cell(
                        self.pixel_data.pixels@[k],
                        match quantized {
                            Some(q) => Some(q@[k]),
                            None => None,
                        },
                        settings.opacity_levels.deep_view(),
                        settings.spec_cell_width(),
                        settings.use_truecolor,
                        *resolved,
                    );
                    (#[trigger] out@[jt]@[it]).text@ == sc.text && out@[jt]@[it].foreground
                        == sc.foreground && out@[jt]@[it].background == sc.background
                },
    {
        let ghost wdecl = self.info_header.width as int;
        let ghost hdecl = self.info_header.height as int;
        let m: usize = abs_i32_usize(self.info_header.height);
        let n: usize = abs_i32_usize(self.info_header.width);
        let total: usize = self.pixel_data.pixels.len();
        let base_width = max_grapheme_width(&settings.opacity_levels);
        proof {
            assert((base_width as int) * (settings.pixel_width as int)
                == settings.spec_cell_width());
        }
        let cell_width: usize = base_width * (settings.pixel_width as usize);
        let mut out: Vec<Vec<ConsoleCell>> = Vec::new();
        let mut jt: usize = 0;
        while jt < m
            invariant
                jt <= m,
                m == spec_abs(hdecl),
                n == spec_abs(wdecl),
                out@.len() == jt,
                total == self.pixel_data.pixels@.len(),
                self.pixel_data.pixels@.len() == spec_abs(wdecl) * spec_abs(hdecl),
                settings.use_truecolor <==> quantized is None,
                quantized matches Some(q) ==> q@.len() == self.pixel_data.pixels@.len() && forall|
                    k: int,
                |
                    0 <= k < q@.len() ==> #[trigger] q@[k] < 16,
                !settings.use_truecolor && resolved.background is Some ==> (
                resolved.background_index matches Some(i) && i < 16),
                cell_width == settings.spec_cell_width(),
                forall|j2: int|
                    0 <= j2 < jt ==> #[trigger] out@[j2]@.len() == spec_abs(wdecl),
                forall|j2: int, i2: int|
                    0 <= j2 < jt && 0 <= i2 < out@[j2]@.len() ==> {
                        let k = spec_source_index(wdecl, hdecl, j2, i2);
                        let sc = spec_render_cell(
                            self.pixel_data.pixels@[k],
                            match quantized {
                                Some(q) => Some(q@[k]),
                                None => None,
                            },
                            settings.opacity_levels.deep_view(),
                            settings.spec_cell_width(),
                            settings.use_truecolor,
                            *resolved,
                        );
                        (#[trigger] out@[j2]@[i2]).text@ == sc.text && out@[j2]@[i2].foreground
                            == sc.foreground && out@[j2]@[i2].background == sc.background
                    },
            decreases m - jt,
        {
            let j: usize = if self.info_header.height < 0 {
                m - 1 - jt
            } else {
                jt
            };
            proof {
                assert(j == (if hdecl < 0 {
                    m - 1 - jt
                } else {
                    jt as int
                }));
            }
            let mut row: Vec<ConsoleCell> = Vec::new();
            let mut it: usize = 0;
            while it < n
                invariant
                    it <= n,
                    jt < m,
                    m == spec_abs(hdecl),
                    n == spec_abs(wdecl),
                    j == (if hdecl < 0 {
                        m - 1 - jt
                    } else {
                        jt as int
                    }),
                    row@.len() == it,
                    total == self.pixel_data.pixels@.len(),
                    self.pixel_data.pixels@.len() == spec_abs(wdecl) * spec_abs(hdecl),
                    settings.use_truecolor <==> quantized is None,
                    quantized matches Some(q) ==> q@.len() == self.pixel_data.pixels@.len()
                        && forall|k: int| 0 <= k < q@.len() ==> #[trigger] q@[k] < 16,
                    !settings.use_truecolor && resolved.background is Some ==> (
                    resolved.background_index matches Some(i) && i < 16),
                    cell_width == settings.spec_cell_width(),
                    forall|i2: int|
                        0 <= i2 < it ==> {
                            let k = spec_source_index(wdecl, hdecl, jt as int, i2);
                            let sc = spec_render_cell(
                                self.pixel_data.pixels@[k],
                                match quantized {
                                    Some(q) => Some(q@[k]),
                                    None => None,
                                },
                                settings.opacity_levels.deep_view(),
                                settings.spec_cell_width(),
                                settings.use_truecolor,
                                *resolved,
                            );
                            (#[trigger] row@[i2]).text@ == sc.text && row@[i2].foreground
                                == sc.foreground && row@[i2].background == sc.background
                        },
                decreases n - it,
            {
                let i: usize = if self.info_header.width < 0 {
                    n - 1 - it
                } else {
                    it
                };
                proof {
                    lemma_source_index_in_range(wdecl, hdecl, jt as int, it as int);
                    assert((n as int) * ((m - j - 1) as int) + (i as int) == spec_source_index(
                        wdecl,
                        hdecl,
                        jt as int,
                        it as int,
                    ));
                    assert((n as int) * ((m - j - 1) as int) + (i as int) < total);
                }
                let index: usize = n * (m - j - 1) + i;
                proof {
                    assert(index == spec_source_index(wdecl, hdecl, jt as int, it as int));
                }
                let p = self.pixel_data.pixels[index];
                let pixel_index: Option<u8> = match quantized {
                    Some(q) => Some(q[index]),
                    None => None,
                };
                let cell = render_cell(p, pixel_index, settings, resolved, cell_width);
                row.push(cell);
                it = it + 1;
            }
            out.push(row);
            jt = jt + 1;
        }
        out
    }
}

/// A fresh vector of glyph strings reading the same as the given ones,
/// character for character.
fn clone_levels(levels: &Vec<String>) -> (r: Vec<String>)
    ensures
        r.deep_view() == levels.deep_view(),
{
    let mut out: Vec<String> = Vec::new();
    let mut i: usize = 0;
    while i < levels.len()
        invariant
            i <= levels@.len(),
            out@.len() == i,
            forall|j: int| 0 <= j < i ==> #[trigger] out@[j]@ == levels@[j]@,
        decreases levels@.len() - i,
    {
        out.push(levels[i].clone());
        i = i + 1;
    }
    proof {
        assert(out.deep_view() =~= levels.deep_view());
    }
    out
}

/// The absolute value of a declared dimension, as a `usize`.
fn abs_i32_usize(v: i32) -> (r: usize)
    ensures
        r == spec_abs(v as int),
{
    if v >= 0 {
        v as usize
    } else if v == i32::MIN {
        0x8000_0000usize
    } else {
        (-v) as usize
    }
}

/// Mirrored scan order, rows: on otherwise identical pixel data, a
/// negative height shows at display row `jt` exactly the pixel that the
/// positive height shows at display row `m - 1 - jt`: row output order is
/// reversed.
pub proof fn lemma_mirrored_rows(w: int, h: int, jt: int, it: int)
    requires
        h > 0,
        0 <= jt < h,
        0 <= it < spec_abs(w),
    ensures
        spec_source_index(w, -h, jt, it) == spec_source_index(w, h, h - 1 - jt, it),
{
}

/// Mirrored scan order, columns: on otherwise identical pixel data, a
/// negative width shows at display column `it` exactly the pixel that the
/// positive width shows at display column `n - 1 - it`: column output
/// order is reversed.
pub proof fn lemma_mirrored_cols(w: int, h: int, jt: int, it: int)
    requires
        w > 0,
        0 <= jt < spec_abs(h),
        0 <= it < w,
    ensures
        spec_source_index(-w, h, jt, it) == spec_source_index(w, h, jt, w - 1 - it),
{
}

/// The display cell at (`jt`, `it`) always looks at a pixel inside a
/// complete grid.
proof fn lemma_source_index_in_range(w: int, h: int, jt: int, it: int)
    requires
        0 <= jt < spec_abs(h),
        0 <= it < spec_abs(w),
    ensures
        0 <= spec_source_index(w, h, jt, it) < spec_abs(w) * spec_abs(h),
{
    let m = spec_abs(h);
    let n = spec_abs(w);
    let j = if h < 0 {
        m - 1 - jt
    } else {
        jt
    };
    let i = if w < 0 {
        n - 1 - it
    } else {
        it
    };
    assert(0 <= j < m);
    assert(0 <= i < n);
    assert(n * (m - j - 1) + i < n * m) by (nonlinear_arith)
        requires
            0 <= j < m,
            0 <= i < n,
    ;
    assert(n * (m - j - 1) + i >= 0) by (nonlinear_arith)
        requires
            0 <= j < m,
            0 <= i < n,
    ;
}

} // verus!
