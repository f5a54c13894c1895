use bmp_view::bitmap::BitMapRaw;
use bmp_view::color::{BitMapColor, RGBColor};
use bmp_view::opacity::get_pixel_from_opacity;
use bmp_view::palette::{
    nearest_index_of_keys, nearest_palette_index, palette_color, palette_key, palette_tag,
    DistanceAlgorithm, TerminalColor,
};
use bmp_view::render::{
    resolve_draw_settings, resolve_draw_settings_with_indices, BitMapRawDrawToConsoleSettings,
};
use bmp_view::text::repeat_string;

fn rgba(red: u8, green: u8, blue: u8, alpha: u8) -> RGBColor {
    RGBColor { red, green, blue, alpha }
}

fn push_u16(buf: &mut Vec<u8>, v: u16) {
    buf.push((v & 0xFF) as u8);
    buf.push((v >> 8) as u8);
}

fn push_u32(buf: &mut Vec<u8>, v: u32) {
    buf.push((v & 0xFF) as u8);
    buf.push(((v >> 8) & 0xFF) as u8);
    buf.push(((v >> 16) & 0xFF) as u8);
    buf.push(((v >> 24) & 0xFF) as u8);
}

/// A 2-by-2 bitmap at depth 32 with the four given pixels, bottom row
/// first, each pixel Alpha-Blue-Green-Red on disk.
fn two_by_two(width: i32, height: i32, pixels: [RGBColor; 4]) -> BitMapRaw {
    let mut buf: Vec<u8> = Vec::new();
    push_u16(&mut buf, 0x4D42);
    push_u32(&mut buf, 54 + 16);
    push_u32(&mut buf, 0);
    push_u32(&mut buf, 54);
    push_u32(&mut buf, 40);
    push_u32(&mut buf, width as u32);
    push_u32(&mut buf, height as u32);
    push_u16(&mut buf, 1);
    push_u16(&mut buf, 32);
    push_u32(&mut buf, 0);
    push_u32(&mut buf, 0);
    push_u32(&mut buf, 0);
    push_u32(&mut buf, 0);
    push_u32(&mut buf, 0);
    push_u32(&mut buf, 0);
    for p in pixels {
        buf.push(p.alpha);
        buf.push(p.blue);
        buf.push(p.green);
        buf.push(p.red);
    }
    BitMapRaw::from_bytes(&buf).unwrap()
}

fn truecolor_settings() -> BitMapRawDrawToConsoleSettings {
    BitMapRawDrawToConsoleSettings::new(
        None,
        true,
        1,
        vec![String::from("#")],
        None,
        DistanceAlgorithm::RgbEuclidean,
    )
}

fn fg_of(c: RGBColor) -> TerminalColor {
    TerminalColor::TrueColor { red: c.red, green: c.green, blue: c.blue }
}

#[test]
fn opacity_full_alpha_is_band_zero() {
    assert_eq!(get_pixel_from_opacity(255, 4), Some(0));
}

#[test]
fn opacity_zero_alpha_is_transparent() {
    assert_eq!(get_pixel_from_opacity(0, 4), None);
}

#[test]
fn opacity_no_levels_is_transparent() {
    assert_eq!(get_pixel_from_opacity(200, 0), None);
}

#[test]
fn opacity_boundaries_join_the_more_opaque_side() {
    // With 5 levels the band edges fall on alpha multiples of 51; each
    // lands in the band that has its ratio as the upper endpoint.
    assert_eq!(get_pixel_from_opacity(51, 5), Some(4));
    assert_eq!(get_pixel_from_opacity(102, 5), Some(3));
    assert_eq!(get_pixel_from_opacity(153, 5), Some(2));
    assert_eq!(get_pixel_from_opacity(204, 5), Some(1));
    assert_eq!(get_pixel_from_opacity(255, 5), Some(0));
    // Just above an edge the band below (less opaque, higher index) holds.
    assert_eq!(get_pixel_from_opacity(52, 5), Some(3));
}

#[test]
fn opacity_four_levels_examples() {
    assert_eq!(get_pixel_from_opacity(64, 4), Some(2));
    assert_eq!(get_pixel_from_opacity(63, 4), Some(3));
    assert_eq!(get_pixel_from_opacity(128, 4), Some(1));
    assert_eq!(get_pixel_from_opacity(192, 4), Some(0));
}

#[test]
fn palette_entry_quantizes_to_itself_rgb_euclidean() {
    for i in 0..16 {
        let c = palette_color(i);
        assert_eq!(nearest_palette_index(&c, DistanceAlgorithm::RgbEuclidean), i);
    }
}

#[test]
fn palette_entry_quantizes_to_itself_rgb_manhattan() {
    for i in 0..16 {
        let c = palette_color(i);
        assert_eq!(nearest_palette_index(&c, DistanceAlgorithm::RgbManhattan), i);
    }
}

fn srgb_to_xyz(c: RGBColor) -> (f32, f32, f32) {
    fn adj(channel: f32) -> f32 {
        let scaled = channel / 255.0;
        if scaled > 0.04045 {
            ((scaled + 0.055) / 1.055).powf(2.4)
        } else {
            scaled / 12.92
        }
    }
    let r = adj(c.red as f32);
    let g = adj(c.green as f32);
    let b = adj(c.blue as f32);
    (
        r * 0.4124 + g * 0.3576 + b * 0.1805,
        r * 0.2126 + g * 0.7152 + b * 0.0722,
        r * 0.0193 + g * 0.1192 + b * 0.9505,
    )
}

fn xyz_to_lab(xyz: (f32, f32, f32)) -> (f32, f32, f32) {
    fn adj(channel: f32) -> f32 {
        if channel > 0.008856 {
            channel.powf(1.0 / 3.0)
        } else {
            (7.787 * channel) + (16.0 / 116.0)
        }
    }
    let x = adj(xyz.0);
    let y = adj(xyz.1);
    let z = adj(xyz.2);
    (116.0 * y - 16.0, 500.0 * (x - y), 200.0 * (y - z))
}

fn euclid3(a: (f32, f32, f32), b: (f32, f32, f32)) -> f32 {
    ((a.0 - b.0).powi(2) + (a.1 - b.1).powi(2) + (a.2 - b.2).powi(2)).sqrt()
}

fn manhattan3(a: (f32, f32, f32), b: (f32, f32, f32)) -> f32 {
    (a.0 - b.0).abs() + (a.1 - b.1).abs() + (a.2 - b.2).abs()
}

#[test]
fn palette_entry_quantizes_to_itself_float_metrics() {
    // The XYZ and L*a*b* distances are computed here with floats; the
    // library's ordered first-minimum search must still land on the entry
    // itself, whose distance is exactly zero.
    for metric in 0..4 {
        for i in 0..16 {
            let c = palette_color(i);
            let keys: Vec<u64> = (0..16)
                .map(|j| {
                    let p = palette_color(j);
                    let d: f32 = match metric {
                        0 => euclid3(srgb_to_xyz(c), srgb_to_xyz(p)),
                        1 => manhattan3(srgb_to_xyz(c), srgb_to_xyz(p)),
                        2 => euclid3(xyz_to_lab(srgb_to_xyz(c)), xyz_to_lab(srgb_to_xyz(p))),
                        _ => manhattan3(xyz_to_lab(srgb_to_xyz(c)), xyz_to_lab(srgb_to_xyz(p))),
                    };
                    d.to_bits() as u64
                })
                .collect();
            assert_eq!(nearest_index_of_keys(&keys), Some(i));
        }
    }
}

#[test]
fn nearest_index_of_keys_first_minimum_wins() {
    assert_eq!(nearest_index_of_keys(&vec![]), None);
    assert_eq!(nearest_index_of_keys(&vec![5, 3, 3, 7]), Some(1));
    assert_eq!(nearest_index_of_keys(&vec![0, 0]), Some(0));
}

#[test]
fn get_closest_in_set_picks_nearest() {
    let set = vec![rgba(0, 0, 0, 0), rgba(100, 100, 100, 0), rgba(255, 255, 255, 0)];
    let c = rgba(90, 90, 90, 255);
    assert_eq!(c.get_closest_in_set(&set, DistanceAlgorithm::RgbEuclidean), Some(1));
    let empty: Vec<RGBColor> = vec![];
    assert_eq!(c.get_closest_in_set(&empty, DistanceAlgorithm::RgbManhattan), None);
}

#[test]
fn quantize_mixed_color_nearest_entry() {
    // (140, 10, 10) sits nearest the dark red entry (128, 0, 0) under
    // Euclidean distance.
    let c = rgba(140, 10, 10, 255);
    let i = nearest_palette_index(&c, DistanceAlgorithm::RgbEuclidean);
    assert_eq!(palette_tag(i), TerminalColor::Red);
}

#[test]
fn color_key_round_trip() {
    let c = rgba(0x12, 0x34, 0x56, 0x78);
    assert_eq!(c.to_u32(true), 0x12345678);
    assert_eq!(c.to_u32(false), 0x78563412);
    assert_eq!(BitMapColor::from_u32(0x12345678, true), c);
    assert_eq!(BitMapColor::from_u32(0x78563412, false), c);
}

#[test]
fn repeat_string_repeats_and_clips() {
    assert_eq!(repeat_string("ab", 3), "aba");
    assert_eq!(repeat_string("#", 4), "####");
    assert_eq!(repeat_string("", 3), "");
    assert_eq!(repeat_string("xy", 0), "");
    assert_eq!(repeat_string("██", 2), "██");
}

#[test]
fn pixel_string_width_is_widest_glyph() {
    let s = BitMapRawDrawToConsoleSettings::new(
        None,
        true,
        2,
        vec![String::from("██"), String::from("█▓"), String::from("░ ")],
        None,
        DistanceAlgorithm::RgbEuclidean,
    );
    assert_eq!(s.pixel_string_width(), 2);
    let empty = BitMapRawDrawToConsoleSettings::new(
        None,
        true,
        2,
        vec![],
        None,
        DistanceAlgorithm::RgbEuclidean,
    );
    assert_eq!(empty.pixel_string_width(), 0);
}

#[test]
fn settings_builders_replace_one_field() {
    let mut s = truecolor_settings();
    s.with_transparency(Some(7));
    assert_eq!(s.transparency, Some(7));
    s.with_use_truecolor(false);
    assert!(!s.use_truecolor);
    s.with_pixel_width(3);
    assert_eq!(s.pixel_width, 3);
    s.with_background(Some(9));
    assert_eq!(s.background, Some(9));
    s.with_algorithm(DistanceAlgorithm::LabEuclidean);
    assert_eq!(s.algorithm, DistanceAlgorithm::LabEuclidean);
    s.with_opacity_levels(vec![String::from("@"), String::from(".")]);
    assert_eq!(s.opacity_levels.len(), 2);

    let c = s.clone_with_transparency(None);
    assert_eq!(c.transparency, None);
    assert_eq!(c.background, Some(9));
    assert_eq!(c.opacity_levels, s.opacity_levels);
    let c2 = s.clone_with_pixel_width(8);
    assert_eq!(c2.pixel_width, 8);
    let c3 = s.clone_with_use_truecolor(true);
    assert!(c3.use_truecolor);
    let c4 = s.clone_with_algorithm(DistanceAlgorithm::XyzManhattan);
    assert_eq!(c4.algorithm, DistanceAlgorithm::XyzManhattan);
    let c5 = s.clone_with_background(None);
    assert_eq!(c5.background, None);
    let c6 = s.clone_with_opacity_levels(vec![String::from("&")]);
    assert_eq!(c6.opacity_levels, vec![String::from("&")]);
}

#[test]
fn resolve_truecolor_keeps_keys() {
    let mut s = truecolor_settings();
    s.with_transparency(Some(0xFF0000FF));
    s.with_background(Some(0x00FF00FF));
    let r = resolve_draw_settings(&s);
    assert_eq!(r.transparency, Some(0xFF0000FF));
    assert_eq!(r.background, Some(0x00FF00FF));
    assert_eq!(r.background_index, None);
    assert_eq!(
        r.background_tag,
        Some(TerminalColor::TrueColor { red: 0, green: 0xFF, blue: 0 })
    );
}

#[test]
fn resolve_palette_quantizes_keys() {
    let mut s = truecolor_settings();
    s.with_use_truecolor(false);
    s.with_algorithm(DistanceAlgorithm::RgbEuclidean);
    s.with_transparency(Some(0x00000000));
    s.with_background(Some(0xFF000000));
    let r = resolve_draw_settings(&s);
    // Black maps to the black entry, pure red to the bright red entry.
    assert_eq!(r.transparency, Some(palette_key(0)));
    assert_eq!(r.background, Some(palette_key(11)));
    assert_eq!(r.background_index, Some(11));
    assert_eq!(r.background_tag, Some(TerminalColor::BrightRed));
}

#[test]
fn resolve_with_supplied_indices() {
    let mut s = truecolor_settings();
    s.with_use_truecolor(false);
    s.with_algorithm(DistanceAlgorithm::LabEuclidean);
    s.with_transparency(Some(0x00000000));
    s.with_background(Some(0xFF000000));
    let r = resolve_draw_settings_with_indices(&s, Some(0), Some(11));
    assert_eq!(r.transparency, Some(palette_key(0)));
    assert_eq!(r.background, Some(palette_key(11)));
    assert_eq!(r.background_index, Some(11));
    assert_eq!(r.background_tag, Some(palette_tag(11)));
}

#[test]
fn render_positive_height_shows_top_row_first() {
    let p0 = rgba(255, 0, 0, 255);
    let p1 = rgba(0, 255, 0, 255);
    let p2 = rgba(0, 0, 255, 255);
    let p3 = rgba(255, 255, 255, 255);
    let bmp = two_by_two(2, 2, [p0, p1, p2, p3]);
    let s = truecolor_settings();
    let r = resolve_draw_settings(&s);
    let cells = bmp.render_to_cells(&s, &r, None);
    assert_eq!(cells.len(), 2);
    assert_eq!(cells[0].len(), 2);
    // Row 0 of the file is the bottom-most displayed row.
    assert_eq!(cells[0][0].foreground, fg_of(p2));
    assert_eq!(cells[0][1].foreground, fg_of(p3));
    assert_eq!(cells[1][0].foreground, fg_of(p0));
    assert_eq!(cells[1][1].foreground, fg_of(p1));
    assert_eq!(cells[0][0].text, "#");
    assert_eq!(cells[0][0].background, None);
}

#[test]
fn render_negative_height_reverses_rows() {
    let p0 = rgba(255, 0, 0, 255);
    let p1 = rgba(0, 255, 0, 255);
    let p2 = rgba(0, 0, 255, 255);
    let p3 = rgba(255, 255, 255, 255);
    let up = two_by_two(2, 2, [p0, p1, p2, p3]);
    let down = two_by_two(2, -2, [p0, p1, p2, p3]);
    let s = truecolor_settings();
    let r = resolve_draw_settings(&s);
    let cells_up = up.render_to_cells(&s, &r, None);
    let cells_down = down.render_to_cells(&s, &r, None);
    for jt in 0..2 {
        for it in 0..2 {
            assert_eq!(cells_down[jt][it].foreground, cells_up[1 - jt][it].foreground);
        }
    }
}

#[test]
fn render_negative_width_reverses_columns() {
    let p0 = rgba(255, 0, 0, 255);
    let p1 = rgba(0, 255, 0, 255);
    let p2 = rgba(0, 0, 255, 255);
    let p3 = rgba(255, 255, 255, 255);
    let plain = two_by_two(2, 2, [p0, p1, p2, p3]);
    let flipped = two_by_two(-2, 2, [p0, p1, p2, p3]);
    let s = truecolor_settings();
    let r = resolve_draw_settings(&s);
    let cells_plain = plain.render_to_cells(&s, &r, None);
    let cells_flipped = flipped.render_to_cells(&s, &r, None);
    for jt in 0..2 {
        for it in 0..2 {
            assert_eq!(cells_flipped[jt][it].foreground, cells_plain[jt][1 - it].foreground);
        }
    }
}

#[test]
fn render_transparent_pixel_shows_blank() {
    let red = rgba(255, 0, 0, 255);
    let clear = rgba(9, 9, 9, 0);
    let bmp = two_by_two(2, 2, [red, clear, red, red]);
    let s = truecolor_settings();
    let r = resolve_draw_settings(&s);
    let cells = bmp.render_to_cells(&s, &r, None);
    // The fully transparent pixel sits bottom-right in display order.
    assert_eq!(cells[1][1].text, " ");
    assert_eq!(cells[1][0].text, "#");
}

#[test]
fn render_transparency_key_matches_post_quantization() {
    // In palette mode the pixel (140, 10, 10) displays as the dark red
    // entry; naming that entry's key as transparency blanks the cell even
    // though the raw pixel differs from the key.
    let near_red = rgba(140, 10, 10, 255);
    let white = rgba(255, 255, 255, 255);
    let bmp = two_by_two(2, 2, [near_red, white, white, white]);
    let mut s = truecolor_settings();
    s.with_use_truecolor(false);
    s.with_algorithm(DistanceAlgorithm::RgbEuclidean);
    s.with_transparency(Some(palette_key(4)));
    let r = resolve_draw_settings(&s);
    let q = bmp.quantize_pixels(DistanceAlgorithm::RgbEuclidean);
    let cells = bmp.render_to_cells(&s, &r, Some(&q));
    // near_red is bottom-left in display order.
    assert_eq!(cells[1][0].text, " ");
    assert_eq!(cells[1][0].foreground, TerminalColor::Red);
    assert_eq!(cells[1][1].text, "#");
    assert_eq!(cells[1][1].foreground, TerminalColor::BrightWhite);
}

#[test]
fn render_background_fills_bandless_pixels() {
    let red = rgba(255, 0, 0, 255);
    let clear = rgba(0, 0, 0, 0);
    let bmp = two_by_two(2, 2, [clear, red, red, red]);
    let mut s = truecolor_settings();
    s.with_use_truecolor(false);
    s.with_algorithm(DistanceAlgorithm::RgbEuclidean);
    s.with_background(Some(palette_key(2)));
    let r = resolve_draw_settings(&s);
    let q = bmp.quantize_pixels(DistanceAlgorithm::RgbEuclidean);
    let cells = bmp.render_to_cells(&s, &r, Some(&q));
    // The transparent pixel shows the dot glyph in the background's color.
    assert_eq!(cells[1][0].text, ".");
    assert_eq!(cells[1][0].foreground, TerminalColor::Green);
    assert_eq!(cells[1][0].background, Some(TerminalColor::Green));
    assert_eq!(cells[1][1].background, Some(TerminalColor::Green));
}

#[test]
fn render_band_selects_glyph_by_alpha() {
    let p0 = rgba(10, 10, 10, 255); // band 0: most opaque glyph
    let p1 = rgba(10, 10, 10, 100); // ceil(100 * 3 / 255) = 2: middle glyph
    let p2 = rgba(10, 10, 10, 30); // ceil(30 * 3 / 255) = 1: faintest glyph
    let p3 = rgba(10, 10, 10, 0); // fully transparent: blank
    let bmp = two_by_two(2, 2, [p0, p1, p2, p3]);
    let s = BitMapRawDrawToConsoleSettings::new(
        None,
        true,
        1,
        vec![String::from("A"), String::from("B"), String::from("C")],
        None,
        DistanceAlgorithm::RgbEuclidean,
    );
    let r = resolve_draw_settings(&s);
    let cells = bmp.render_to_cells(&s, &r, None);
    assert_eq!(cells[1][0].text, "A");
    assert_eq!(cells[1][1].text, "B");
    assert_eq!(cells[0][0].text, "C");
    assert_eq!(cells[0][1].text, " ");
}

#[test]
fn render_pixel_width_repeats_glyphs() {
    let p = rgba(1, 2, 3, 255);
    let bmp = two_by_two(2, 2, [p, p, p, p]);
    let mut s = truecolor_settings();
    s.with_pixel_width(3);
    let r = resolve_draw_settings(&s);
    let cells = bmp.render_to_cells(&s, &r, None);
    assert_eq!(cells[0][0].text, "###");
}

#[test]
fn closest_in_console_colors_matches_palette_search() {
    let set = bmp_view::palette::console_colors();
    assert_eq!(set.len(), 16);
    let c = rgba(140, 10, 10, 255);
    let via_set = c.get_closest_in_set(&set, DistanceAlgorithm::RgbEuclidean);
    let direct = nearest_palette_index(&c, DistanceAlgorithm::RgbEuclidean);
    assert_eq!(via_set, Some(direct));
}
