use myos_sched::font::{FixedFontDriver, FontDescriptor, FontDriver, FontFamily, FontManager, HersheyFont};

fn bitmap(width: usize, height: usize) -> Vec<u8> {
    let stride = (width + 7) / 8 * height;
    (0..96 * stride).map(|i| (i % 251) as u8).collect()
}

/// Three glyph records, for codes 0x20 to 0x22, of widths 16, 10 and 14.
fn strokes() -> Vec<u8> {
    b"    1  1JZ\n    2  1MW\n    3  1KY\n".to_vec()
}

#[test]
fn fixed_font_metrics() {
    let data = bitmap(8, 16);
    let f = FixedFontDriver::new(8, 16, &data);
    assert_eq!(f.width(), 8);
    assert_eq!(f.line_height(), 20);
    assert_eq!(f.leading(), 2);
    assert!(!f.is_scalable());
    assert_eq!(f.base_height(), 16);
    assert_eq!(f.preferred_line_height(), 20);
    assert_eq!(f.width_of('W'), 8);
    let small_data = bitmap(6, 8);
    let s = FixedFontDriver::new(6, 8, &small_data);
    assert_eq!(s.line_height(), 10);
    assert_eq!(s.leading(), 1);
}

#[test]
fn fixed_font_glyphs() {
    let data = bitmap(8, 16);
    let f = FixedFontDriver::new(8, 16, &data);
    assert_eq!(f.glyph_for(' '), None);
    assert_eq!(f.glyph_for('\u{80}'), None);
    assert_eq!(f.glyph_for('\n'), None);
    let base = 16 * (0x41 - 0x20);
    assert_eq!(f.glyph_for('A'), Some(&data[base..base + 16]));
    let last = 16 * (0x7f - 0x20);
    assert_eq!(f.glyph_for('\u{7f}'), Some(&data[last..last + 16]));
}

#[test]
fn hershey_glyph_table() {
    let data = strokes();
    let h = HersheyFont::new(0, &data);
    assert!(h.is_scalable());
    assert_eq!(h.base_height(), 32);
    assert_eq!(h.preferred_line_height(), 34);
    assert_eq!(h.glyph_for(' '), Some((0, 10, 16)));
    assert_eq!(h.glyph_for('!'), Some((11, 21, 10)));
    assert_eq!(h.glyph_for('"'), Some((22, 32, 14)));
    assert_eq!(h.glyph_for('#'), None);
    assert_eq!(h.glyph_for('\u{1f}'), None);
    assert_eq!(h.width_of('!'), 10);
    assert_eq!(h.width_of('z'), 0);
}

#[test]
fn hershey_record_search() {
    let data = strokes();
    let h = HersheyFont::new(4, &data);
    assert_eq!(h.preferred_line_height(), 38);
    assert_eq!(h.search_for_glyph(' '), Some((0, 10)));
    assert_eq!(h.search_for_glyph('"'), Some((22, 32)));
    assert_eq!(h.search_for_glyph('#'), None);
    assert_eq!(h.search_for_glyph('\u{7f}'), None);
    assert_eq!(h.search_for_glyph('\t'), None);
}

#[test]
fn empty_hershey_data_has_no_glyphs() {
    let data: Vec<u8> = Vec::new();
    let h = HersheyFont::new(0, &data);
    assert_eq!(h.glyph_for(' '), None);
    assert_eq!(h.width_of(' '), 0);
}

#[test]
fn manager_descriptors() {
    let system = bitmap(8, 16);
    let small = bitmap(6, 8);
    let strokes = strokes();
    let mut m = FontManager::new();
    assert!(m.driver_for(FontFamily::SystemUI).is_none());
    m.init(&system, &small, &strokes, &strokes, &strokes, &strokes);
    assert!(m.driver_for(FontFamily::Japanese).is_none());
    assert_eq!(m.fixed_system_font().map(|f| f.width()), Some(8));

    let sys = m.system_font();
    assert!(!sys.is_scalable());
    assert_eq!(sys.point(), 16);
    assert_eq!(sys.line_height(), 20);
    assert_eq!(sys.width_of('x'), 8);

    let title = m.title_font();
    assert!(title.is_scalable());
    assert_eq!(title.point(), 16);
    assert_eq!(title.line_height(), 17);
    assert_eq!(title.width_of(' '), 8);
    assert_eq!(title.width_of('!'), 5);

    let label = m.label_font();
    assert_eq!(label.point(), 16);
    assert_eq!(label.line_height(), 17);

    let cursive = FontDescriptor::new(&m, FontFamily::Cursive, 16).unwrap();
    assert_eq!(cursive.line_height(), 19);
    let big = FontDescriptor::new(&m, FontFamily::Serif, 32).unwrap();
    assert_eq!(big.line_height(), 34);
    assert_eq!(big.width_of('"'), 14);
    let odd = FontDescriptor::new(&m, FontFamily::Serif, -20).unwrap();
    assert_eq!(odd.line_height(), -21);
    let fixed = FontDescriptor::new(&m, FontFamily::SmallFixed, 40).unwrap();
    assert_eq!(fixed.point(), 8);
    assert_eq!(fixed.line_height(), 10);
    assert!(FontDescriptor::new(&m, FontFamily::Japanese, 16).is_none());
}

#[test]
fn uninitialised_manager_has_no_fonts() {
    let m = FontManager::new();
    assert!(FontDescriptor::new(&m, FontFamily::FixedSystem, 0).is_none());
    assert!(m.fixed_system_font().is_none());
}

#[test]
fn stroke_segments_join_vertices() {
    let data = b"    1  4JZRRTRRT";
    let lines = HersheyFont::stroke_segments(data, 32);
    assert_eq!(lines, vec![((47, 47), (51, 47)), ((51, 47), (47, 51))]);
    let half = HersheyFont::stroke_segments(data, 16);
    assert_eq!(half, vec![((47, 47), (49, 47)), ((49, 47), (47, 49))]);
}

#[test]
fn pen_up_breaks_the_stroke() {
    let data = b"    1  5JZRRTR RRT";
    let lines = HersheyFont::stroke_segments(data, 32);
    assert_eq!(lines, vec![((47, 47), (51, 47))]);
}

#[test]
fn short_or_empty_records_draw_nothing() {
    assert!(HersheyFont::stroke_segments(b"    1  4JZ", 32).is_empty());
    assert!(HersheyFont::stroke_segments(b"    1  0JZRR", 32).is_empty());
    assert!(HersheyFont::stroke_segments(b"    1  1JZRR", 32).is_empty());
}

#[test]
fn glyph_offset_follows_left_edge_and_height() {
    let data = b"    1  4JZRRTRRT";
    assert_eq!(HersheyFont::glyph_offset(data, 32), (15, 8));
    assert_eq!(HersheyFont::glyph_offset(data, 16), (19, 16));
}

#[test]
fn fixed_glyph_rect_adds_the_leading() {
    let data = bitmap(8, 16);
    let f = FixedFontDriver::new(8, 16, &data);
    assert_eq!(f.glyph_rect(10, 5), (10, 7, 8, 16));
}

#[test]
fn large_point_sizes_scale() {
    let system = bitmap(8, 16);
    let small = bitmap(6, 8);
    let strokes = strokes();
    let mut m = FontManager::new();
    m.init(&system, &small, &strokes, &strokes, &strokes, &strokes);
    let big = FontDescriptor::new(&m, FontFamily::Serif, 1_000_000).unwrap();
    assert_eq!(big.point(), 1_000_000);
    assert_eq!(big.line_height(), 1_062_500);
    assert_eq!(big.width_of('"'), 437_500);
    let huge = FontDescriptor::new(&m, FontFamily::Serif, i32::MAX as isize).unwrap();
    assert_eq!(huge.line_height(), (34i64 * i32::MAX as i64 / 32) as i32 as isize);
    assert_eq!(huge.width_of(' '), 16 * i32::MAX as isize / 32);
}
