use rouch::decorations::{
    animated_geometry, chrome_width, safe_animation_sample, title_key, AnimationSample, ChromeLook,
    ChromeMetrics, ChromeSurface, ChromeWindow, Decorations, LightColors, Repaint, CHROME_ACTIVE,
    HAIRLINE, MAX_CHROME_WIDTH,
};
use rouch::drawing::{
    bytes_of, initial_of, place_text, render_all, text_hash, tint, truncate, Anchor, DrawOp, Sheet,
};
use rouch::font_files::check_file;
use rouch::fonts::{
    blit_glyph, clip_rect, descends, file_stem, font_directories, has_bold, is_candidate,
    matches_face, FontBook, FontFile, GlyphRaster,
};
use rouch::geometry::Rect;
use rouch::micro_font::{glyph, is_lit};
use rouch::pixel::{blend, draw_text, fill_circle, fill_rect, fill_round_rect, text_width};

#[test]
fn drawing_outside_the_buffer_is_a_noop() {
    let mut pixels = vec![0x5a; 4 * 4 * 4];
    let original = pixels.clone();

    fill_rect(&mut pixels, 4, Rect::new(20, 20, 4, 4), [1, 2, 3, 4]);
    fill_round_rect(&mut pixels, 4, Rect::new(-20, -20, 4, 4), 12, [1, 2, 3, 4]);
    fill_circle(&mut pixels, 4, i32::MAX, i32::MIN, i32::MAX, [1, 2, 3, 4]);

    assert_eq!(pixels, original);
}

#[test]
fn malformed_stride_and_short_rows_never_panic() {
    let mut pixels = vec![0; 7];
    fill_rect(&mut pixels, 0, Rect::new(0, 0, 1, 1), [1, 2, 3, 4]);
    fill_rect(&mut pixels, usize::MAX, Rect::new(0, 0, 1, 1), [1, 2, 3, 4]);
    fill_round_rect(&mut pixels, 2, Rect::new(0, 0, 2, 2), 1, [1, 2, 3, 4]);
    draw_text(&mut pixels, 2, Rect::new(0, 0, 2, 7), [1, 2, 3, 4], "A");
    assert_eq!(pixels.len(), 7);
}

#[test]
fn invalid_blend_offsets_and_coverage_are_safe() {
    let mut pixels = vec![0x5a; 4];
    blend(&mut pixels, usize::MAX, [1, 2, 3, 4], 1.0f32.to_bits());
    blend(&mut pixels, 0, [1, 2, 3, 4], f32::NAN.to_bits());
    assert_eq!(pixels, vec![0x5a; 4]);
}

#[test]
fn text_measurement_is_empty_safe_and_counts_characters() {
    assert_eq!(text_width(""), 0);
    assert_eq!(text_width("ab"), 11);
    assert_eq!(text_width("é"), 5);
}

#[test]
fn chrome_width_is_bounded_for_invalid_geometry() {
    assert_eq!(chrome_width(Rect::new(0, 0, -10, 20)), 1);
    assert_eq!(chrome_width(Rect::new(0, 0, 20_000, 20)), MAX_CHROME_WIDTH);
    assert_eq!(chrome_width(Rect::new(0, 0, 640, 20)), 640);
}

fn sample(scale: f32, opacity: f32, x: f64, y: f64) -> AnimationSample {
    AnimationSample {
        scale: scale.to_bits(),
        opacity: opacity.to_bits(),
        x: x.to_bits(),
        y: y.to_bits(),
    }
}

#[test]
fn invalid_effect_values_fall_back_to_opaque_rest_state() {
    assert!(safe_animation_sample(sample(f32::NAN, 1.0, 10.0, 10.0)).is_none());
    assert!(safe_animation_sample(sample(1.0, f32::INFINITY, 10.0, 10.0)).is_none());
    assert!(safe_animation_sample(sample(1.0, -0.1, 10.0, 10.0)).is_none());
    assert!(safe_animation_sample(sample(1.0, 1.0, 10.0, 10.0)).is_some());
    assert!(safe_animation_sample(sample(1.0, 1.0, f64::MAX, 0.0)).is_none());
    assert!(safe_animation_sample(sample(4.0, 0.0, -1e9, 1e9)).is_some());
    assert!(safe_animation_sample(sample(4.1, 0.0, 0.0, 0.0)).is_none());
    assert!(safe_animation_sample(sample(0.0, 0.0, 0.0, 0.0)).is_none());
}

#[test]
fn animated_geometry_never_emits_zero_sized_elements() {
    let frame = Rect::new(0, 0, 200, 120);
    let geometry = animated_geometry(frame, 32, Some(sample(0.001, 1.0, 10.0, 10.0)));
    assert!(geometry.as_ref().is_some(), "valid animation sample rejected");
    if let Some((_, size)) = geometry {
        assert!(size.width >= 1);
        assert!(size.height >= 1);
    }
    let (opacity, size) = animated_geometry(frame, 32, Some(sample(1.5, 0.5, 0.0, 0.0))).unwrap();
    assert_eq!(opacity, 0.5f32.to_bits());
    assert_eq!((size.width, size.height), (300, 48));
    let (_, tiny) = animated_geometry(frame, 32, Some(sample(f32::MIN_POSITIVE / 8.0, 1.0, 0.0, 0.0))).unwrap();
    assert_eq!((tiny.width, tiny.height), (1, 1));
}

/// The same pixel as plain floating-point arithmetic has it.
fn float_circle(width: usize, rows: usize, cx: i32, cy: i32, radius: i32, color: [u8; 4], base: u8) -> Vec<u8> {
    let mut pixels = vec![base; width * rows * 4];
    let r = radius as f32;
    for y in 0..rows {
        for x in 0..width {
            let near = |place: usize, centre: i32| {
                let place = place as i64;
                place >= centre as i64 - radius as i64 - 1 && place < centre as i64 + radius as i64 + 1
            };
            if !near(x, cx) || !near(y, cy) {
                continue;
            }
            let dx = x as f32 + 0.5 - cx as f32;
            let dy = y as f32 + 0.5 - cy as f32;
            let coverage = ((r + 0.5) - (dx * dx + dy * dy).sqrt()).clamp(0.0, 1.0);
            if coverage > 0.0 {
                let alpha = (color[3] as f32 * coverage) as u32;
                for i in 0..4 {
                    let at = (y * width + x) * 4 + i;
                    let sum = color[i] as u32 * alpha + pixels[at] as u32 * (255 - alpha) + 127;
                    pixels[at] = (sum / 255) as u8;
                }
            }
        }
    }
    pixels
}

#[test]
fn circles_agree_with_floating_point() {
    for (cx, cy, radius) in [(8, 8, 5), (0, 0, 9), (-3, 12, 7), (7, 7, 0), (16_777_219, 3, 16_777_215)] {
        let color = [10, 200, 90, 230];
        let mut pixels = vec![40u8; 16 * 16 * 4];
        fill_circle(&mut pixels, 16, cx, cy, radius, color);
        assert_eq!(pixels, float_circle(16, 16, cx, cy, radius, color, 40));
    }
}

#[test]
fn rounded_corners_agree_with_floating_point() {
    let rect = Rect::new(1, 1, 12, 9);
    let mut pixels = vec![0u8; 16 * 12 * 4];
    fill_round_rect(&mut pixels, 16, rect, 40, [9, 9, 9, 9]);
    let radius = 4i64;
    for y in 0..12i64 {
        for x in 0..16i64 {
            let inside = x >= 1 && x < 13 && y >= 1 && y < 10;
            let depth = |place: i64, length: i64| {
                let edge = place.min(length - 1 - place);
                if edge >= radius { 0 } else { radius - edge }
            };
            let (dx, dy) = (depth(x - 1, 12), depth(y - 1, 9));
            let hit = inside
                && (dy == 0 || (dx * dx) as f32 + (dy * dy) as f32 <= (radius * radius) as f32);
            let at = ((y * 16 + x) * 4) as usize;
            assert_eq!(pixels[at] == 9, hit, "at {x},{y}");
        }
    }
}

#[test]
fn blends_agree_with_floating_point() {
    for coverage in [0.0f32, 1e-30, 0.1, 0.25, 0.333, 0.5, 0.999, 1.0, 3.0, -2.0] {
        for alpha in [0u8, 1, 77, 254, 255] {
            let mut pixels = vec![100u8; 4];
            blend(&mut pixels, 0, [200, 50, 0, alpha], coverage.to_bits());
            let share = (alpha as f32 * coverage.clamp(0.0, 1.0)) as u32;
            let expected = (200 * share + 100 * (255 - share) + 127) / 255;
            assert_eq!(pixels[0] as u32, expected);
        }
    }
}

#[test]
fn rectangles_are_clipped_to_whole_rows() {
    let mut pixels = vec![0u8; 3 * 2 * 4 + 5];
    fill_rect(&mut pixels, 3, Rect::new(-1, 1, 3, 9), [1, 2, 3, 4]);
    assert_eq!(&pixels[12..24], &[1, 2, 3, 4, 1, 2, 3, 4, 0, 0, 0, 0]);
    assert!(pixels[..12].iter().all(|byte| *byte == 0));
    assert!(pixels[24..].iter().all(|byte| *byte == 0));
}

#[test]
fn characters_outside_the_font_are_blank() {
    let mut pixels = vec![0u8; 24 * 8 * 4];
    // U+0141 would be an A if only its low byte counted.
    draw_text(&mut pixels, 24, Rect::new(0, 0, 24, 7), [255, 255, 255, 255], "\u{141}é");
    assert!(pixels.iter().all(|byte| *byte == 0));
    draw_text(&mut pixels, 24, Rect::new(0, 0, 24, 7), [255, 255, 255, 255], "A");
    let lit = (0..5).filter(|x| pixels[x * 4] == 255).collect::<Vec<usize>>();
    assert_eq!(lit, [1, 2, 3]);
    assert_eq!(glyph('~'), None);
    let bits = glyph('T').unwrap();
    assert!((0..5).all(|column| is_lit(bits, 0, column)));
    assert!(is_lit(bits, 6, 2) && !is_lit(bits, 6, 1));
}

#[test]
fn text_stops_where_the_box_ends() {
    let mut pixels = vec![0u8; 24 * 8 * 4];
    draw_text(&mut pixels, 24, Rect::new(0, 0, 10, 7), [255, 255, 255, 255], "II");
    assert!((6..24).all(|x| pixels[x * 4] == 0));
}

#[test]
fn display_lists_are_drawn_in_order() {
    let mut sheet = Sheet::new();
    sheet.clear(0x0102_0304);
    sheet.fill(Rect::new(0, 0, 1, 1), 0xffff_ffff);
    sheet.write(Rect::new(0, 0, 4, 4), 0, "", 12);
    let mut pixels = vec![9u8; 2 * 4];
    render_all(&mut pixels, 2, &sheet.ops);
    assert_eq!(pixels, [255, 255, 255, 255, 1, 2, 3, 4]);
    assert_eq!(sheet.ops[0], DrawOp::Clear(0x0102_0304));
    assert_eq!(bytes_of(0x0102_0304), [1, 2, 3, 4]);
}

#[test]
fn texts_are_placed_by_their_width() {
    assert_eq!(
        place_text(Anchor::Centred { left: 10, room: 20 }, 3, 7, 25),
        Rect::new(8, 3, 29, 7)
    );
    assert_eq!(place_text(Anchor::About(50), 0, 14, 31), Rect::new(35, 0, 35, 14));
    assert_eq!(place_text(Anchor::From(4), 1, 2, 6), Rect::new(4, 1, 10, 2));
    assert_eq!(place_text(Anchor::Box { x: 1, width: 2 }, 3, 4, 99), Rect::new(1, 3, 2, 4));
}

#[test]
fn names_have_stable_marks() {
    assert_eq!(truncate("abcdef", 6), "abcdef");
    assert_eq!(truncate("abcdefg", 6), "abcde…");
    assert_eq!(truncate("ab", 0), "…");
    assert_eq!(initial_of("editor"), "E");
    assert_eq!(initial_of(""), "?");
    assert_eq!(initial_of("été"), "é");
    assert_eq!(text_hash("ab", 0), 97 * 31 + 98);
    assert_eq!(tint(""), 0x0c66_a0ff);
    assert_eq!(tint("a"), 0x168e_afff);
}

fn look() -> ChromeLook {
    ChromeLook {
        active: true,
        maximized: false,
        lights: LightColors {
            first: 0x1020_30ff,
            second: 0x4050_60ff,
            third: 0x7080_90ff,
        },
    }
}

fn metrics() -> ChromeMetrics {
    ChromeMetrics {
        title_bar_height: 32,
        light_diameter: 12,
        light_margin: 12,
        light_spacing: 20,
    }
}

#[test]
fn chrome_is_drawn_once() {
    let frame = Rect::new(5, 5, 200, 100);
    let mut surface = ChromeSurface::new(frame);
    assert!(!surface.mark_dirty(frame, true, false, "Editor"));
    let mut pixels = vec![0u8; 200 * 32 * 4];
    assert_eq!(surface.repaint(&mut pixels, metrics(), look(), "Editor"), Repaint::Painted);
    assert_eq!(&pixels[199 * 4..200 * 4], &bytes_of(CHROME_ACTIVE));
    assert_eq!(&pixels[31 * 200 * 4..31 * 200 * 4 + 4], &bytes_of(HAIRLINE));
    // The middle of the first light, and its rim.
    let middle = (16 * 200 + 18) * 4;
    assert_eq!(&pixels[middle..middle + 4], &[0x10, 0x20, 0x30, 0xff]);
    let rim = (16 * 200 + 11) * 4;
    assert_eq!(&pixels[rim..rim + 4], &[0, 0, 0x02, 0xff]);
    assert_eq!(surface.repaint(&mut pixels, metrics(), look(), "Editor"), Repaint::Clean);
    surface.mark_dirty(Rect::new(90, 90, 200, 300), true, false, "Editor");
    assert!(!surface.dirty);
    surface.mark_dirty(frame, true, false, "Other");
    assert!(surface.dirty);
    let mut short = vec![0u8; 200 * 31 * 4];
    assert_eq!(surface.repaint(&mut short, metrics(), look(), "Other"), Repaint::Failed);
    assert!(surface.dirty);
}

#[test]
fn titles_have_fingerprints() {
    assert_ne!(title_key("a"), title_key("b"));
    assert_ne!(title_key(""), title_key("a"));
    let long = "x".repeat(256);
    let longer = "x".repeat(257);
    assert_ne!(title_key(&long), title_key(&longer));
    assert_eq!(title_key(&longer), title_key(&"x".repeat(300)));
}

#[test]
fn closed_windows_lose_their_chrome() {
    let window = |id: u64, title: &str| ChromeWindow {
        id,
        frame: Rect::new(0, 0, 100, 100),
        active: false,
        maximized: false,
        title: title.to_owned(),
    };
    let mut decorations = Decorations::new();
    let first = decorations.render_elements(&vec![window(1, "a"), window(2, "b")]);
    assert!(first.iter().all(|update| update.created && update.repaint));
    decorations.painted(1);
    decorations.painted(2);
    let second = decorations.render_elements(&vec![window(2, "b")]);
    assert_eq!(second.len(), 1);
    assert!(!second[0].repaint && !second[0].created);
    assert_eq!(decorations.entries.len(), 1);
    decorations.forget(2);
    assert!(decorations.entries.is_empty());
}

#[test]
fn font_files_are_told_by_name() {
    assert!(matches_face("SF-Pro-Text.OTF", "sf-pro"));
    assert!(!matches_face("sf-pro.woff", "sf-pro"));
    assert!(has_bold("Inter-SemiBold.ttf"));
    assert!(is_candidate("DejaVuSans.ttf"));
    assert!(!is_candidate("Comic.ttf"));
    assert_eq!(file_stem("Inter-Regular.ttf"), "Inter-Regular");
    assert_eq!(file_stem(".hidden"), ".hidden");
    assert_eq!(file_stem("plain"), "plain");
    assert_eq!(
        font_directories(&Some("/home/me".to_owned())),
        ["/home/me/.fonts", "/home/me/.local/share/fonts", "/usr/share/fonts"]
    );
    assert_eq!(font_directories(&None), ["/usr/share/fonts"]);
    assert!(descends(1) && !descends(2));
}

#[test]
fn broken_fonts_are_passed_over() {
    let file = |name: &str, bytes: Option<Vec<u8>>| FontFile {
        name: name.to_owned(),
        bytes,
    };
    let book = FontBook::load(&vec![
        file("Inter-Regular.ttf", Some(b"not a font".to_vec())),
        file("DejaVuSans.ttf", None),
    ]);
    assert!(book.regular.is_none());
    assert!(book.bold.is_none());
    assert_eq!(book.family_name, "Rouch Micro");
}

/// The smallest font that parses: one empty glyph, and a full name.
fn tiny_font(name: &str) -> Vec<u8> {
    let encoded: Vec<u8> = name.encode_utf16().flat_map(|unit| unit.to_be_bytes()).collect();
    raw_font(3, &encoded)
}

fn raw_font(platform: u8, encoded: &[u8]) -> Vec<u8> {
    font_with(platform, encoded, &[])
}

fn font_with(platform: u8, encoded: &[u8], more: &[(&[u8; 4], &[u8])]) -> Vec<u8> {
    let mut head = vec![0u8; 54];
    head[0..4].copy_from_slice(&[0, 1, 0, 0]);
    head[12..16].copy_from_slice(&[0x5f, 0x0f, 0x3c, 0xf5]);
    head[18..20].copy_from_slice(&[0x03, 0xe8]);
    let mut hhea = vec![0u8; 36];
    hhea[0..4].copy_from_slice(&[0, 1, 0, 0]);
    hhea[34..36].copy_from_slice(&[0, 1]);
    let mut maxp = vec![0u8; 6];
    maxp[0..4].copy_from_slice(&[0, 0, 0x50, 0]);
    maxp[4..6].copy_from_slice(&[0, 1]);
    let mut names = vec![0, 0, 0, 1, 0, 18];
    names.extend([0, platform, 0, 1, 4, 9, 0, 4]);
    names.extend((encoded.len() as u16).to_be_bytes());
    names.extend([0, 0]);
    names.extend(encoded);
    let mut tables: Vec<(&[u8; 4], Vec<u8>)> = vec![
        (b"head", head),
        (b"hhea", hhea),
        (b"maxp", maxp),
        (b"name", names),
    ];
    for (tag, data) in more {
        tables.push((*tag, data.to_vec()));
    }
    let mut font = vec![0, 1, 0, 0, 0, tables.len() as u8, 0, 0, 0, 0, 0, 0];
    let mut offset = 12 + 16 * tables.len();
    for (tag, data) in &tables {
        font.extend_from_slice(*tag);
        font.extend([0, 0, 0, 0]);
        font.extend((offset as u32).to_be_bytes());
        font.extend((data.len() as u32).to_be_bytes());
        offset += data.len();
    }
    for (_, data) in &tables {
        font.extend(data);
    }
    font
}

#[test]
fn fonts_give_their_full_name() {
    let file = |name: &str, font: &str| FontFile {
        name: name.to_owned(),
        bytes: Some(tiny_font(font)),
    };
    let book = FontBook::load(&vec![file("Inter-Bold.ttf", "Bold One"), file("Inter.ttf", "Inter Regular")]);
    assert!(book.regular.is_some());
    assert!(book.bold.is_some());
    assert_eq!(book.family_name, "Inter Regular");
    assert_eq!(book.bold.unwrap().name(), Some("Bold One"));
}

#[test]
fn fonts_with_broken_names_are_passed_over() {
    let family = |bytes: Vec<u8>| {
        let file = FontFile {
            name: "Inter.ttf".to_owned(),
            bytes: Some(bytes),
        };
        FontBook::load(&vec![file]).family_name
    };
    assert_eq!(family(tiny_font("A\u{1f600}")), "A\u{1f600}");
    assert_eq!(family(tiny_font("")), "");
    assert_eq!(family(raw_font(3, &[0, 65, 0])), "Rouch Micro");
    assert_eq!(family(raw_font(0, &[0, 65, 0xd8, 0])), "Rouch Micro");
    assert_eq!(family(raw_font(3, &[0xd8, 0, 0, 65])), "Rouch Micro");
    assert_eq!(family(raw_font(3, &[0xdc, 0, 0xdc, 0])), "Rouch Micro");
    assert_eq!(family(raw_font(1, &[0, 65, 0])), "Inter");
    assert!(check_file(&tiny_font("A")) && check_file(&vec![]));
    assert!(!check_file(&raw_font(3, &[0])));
}

#[test]
fn fonts_with_absurd_counts_are_passed_over() {
    let family = |bytes: Vec<u8>| {
        let file = FontFile {
            name: "Inter.ttf".to_owned(),
            bytes: Some(bytes),
        };
        FontBook::load(&vec![file]).family_name
    };
    let with = |tag: &[u8; 4], data: &[u8]| family(font_with(3, &[0, 65], &[(tag, data)]));
    let mut collection = b"ttcf".to_vec();
    collection.extend([0, 1, 0, 0, 0xff, 0xff, 0xff, 0xff, 0, 0, 0, 16]);
    assert_eq!(family(collection), "Rouch Micro");

    let map = |count: u8| {
        let mut data = vec![0, 0, 0, 1, 0, 3, 0, 10, 0, 0, 0, 12];
        data.extend([0, 12, 0, 0, 0, 0, 0, 28, 0, 0, 0, 0, count, 0, 0, 1]);
        data.extend([0, 0, 0, 65, 0, 0, 0, 65, 0, 0, 0, 0]);
        data
    };
    assert_eq!(with(b"cmap", &map(0)), "A");
    assert_eq!(with(b"cmap", &map(0xff)), "Rouch Micro");
    assert_eq!(with(b"sbix", &[0, 1, 0, 0, 0xff, 0, 0, 0]), "Rouch Micro");
    assert_eq!(with(b"sbix", &[0, 2, 0, 0, 0xff, 0, 0, 0]), "A");
    let mut colours = vec![0u8; 34];
    colours[1] = 1;
    colours[17] = 30;
    assert_eq!(with(b"COLR", &colours), "A");
    colours[30] = 0xff;
    assert_eq!(with(b"COLR", &colours), "Rouch Micro");

    // A CFF table: no names, a top dictionary that names the glyphs at 22, no
    // texts and no subroutines.
    let outlines = |last: u32| {
        let mut data = vec![1, 0, 4, 4, 0, 0];
        data.extend([0, 1, 1, 1, 3, 139 + 22, 17, 0, 0, 0, 0, 0, 0, 0, 0, 0]);
        data.extend([0, 1, 4, 0, 0, 0, 1]);
        data.extend(last.to_be_bytes());
        data.push(14);
        data
    };
    assert_eq!(with(b"CFF ", &outlines(2)), "A");
    assert_eq!(with(b"CFF ", &outlines(0xff00_0000)), "A");
    assert_eq!(with(b"CFF ", &outlines(0xffff_ffff)), "Rouch Micro");
    assert_eq!(with(b"CFF ", &[1, 0, 4, 4, 0, 1, 4, 0, 0, 0, 1, 0xff, 0xff, 0xff, 0xff]), "Rouch Micro");
}

/// The family of a font with more tables than the smallest one.
fn family_with(more: &[(&[u8; 4], &[u8])]) -> String {
    let file = FontFile {
        name: "Inter.ttf".to_owned(),
        bytes: Some(font_with(3, &[0, 65], more)),
    };
    FontBook::load(&vec![file]).family_name
}

fn pair(number: usize) -> [u8; 2] {
    (number as u16).to_be_bytes()
}

#[test]
fn fonts_with_too_many_tables_are_passed_over() {
    let file = |count: usize| {
        let mut bytes = vec![0, 1, 0, 0];
        bytes.extend(pair(count));
        bytes.resize(12 + 16 * count, 0);
        bytes
    };
    assert!(check_file(&file(0xfffe)));
    assert!(!check_file(&file(0xffff)));
    let load = |bytes: Vec<u8>| {
        FontBook::load(&vec![FontFile {
            name: "Inter.ttf".to_owned(),
            bytes: Some(bytes),
        }])
        .family_name
    };
    assert_eq!(load(file(0xfffe)), "Rouch Micro");
    assert_eq!(load(file(0xffff)), "Rouch Micro");
}

/// A substitution table with one lookup of a kind, with one subtable.
fn substitutions(kind: u8, subtable: &[u8]) -> Vec<u8> {
    let mut table = vec![0, 1, 0, 0, 0, 10, 0, 10, 0, 12, 0, 0];
    table.extend([0, 1, 0, 4]);
    table.extend([0, kind, 0, 0, 0, 1, 0, 8]);
    table.extend(subtable);
    table
}

#[test]
fn fonts_with_endless_substitutions_are_passed_over() {
    let list = |count: usize| {
        let mut subtable = vec![0, 2, 0, 6];
        subtable.extend(pair(count));
        subtable.extend([0, 1, 0, 0]);
        subtable.resize(6 + 2 * count, 0);
        substitutions(1, &subtable)
    };
    let two_glyphs = [0, 0, 0x50, 0, 0, 2];
    let family = |table: &[u8]| family_with(&[(b"maxp", &two_glyphs), (b"GSUB", table)]);
    assert_eq!(family(&list(5)), "A");
    assert_eq!(family(&list(0xfffe)), "A");
    assert_eq!(family(&list(0xffff)), "Rouch Micro");

    let extension = |kind: u8, offset: u8| substitutions(7, &[0, 1, 0, kind, 0, 0, 0, offset, 0, 9, 0, 0, 0, 0]);
    assert_eq!(family(&extension(1, 8)), "A");
    assert_eq!(family(&extension(7, 0)), "Rouch Micro");

    // One range of glyphs that every subtable covers again.
    let mut covered = vec![0, 1, 0, 6, 0, 1];
    covered.extend([0, 2, 0, 1, 0, 0, 0xff, 0xff, 0, 0]);
    assert!(check_file(&font_with(3, &[0, 65], &[(b"GSUB", &substitutions(1, &covered))])));
    let mut again = vec![0, 1, 0, 0, 0, 10, 0, 10, 0, 12, 0, 0];
    again.extend([0, 1, 0, 4, 0, 1, 0, 0]);
    again.extend(pair(3000));
    for _ in 0..3000 {
        again.extend(pair(6 + 2 * 3000));
    }
    again.extend(&covered);
    assert_eq!(family(&again), "Rouch Micro");
}

#[test]
fn fonts_with_endless_maps_are_passed_over() {
    let map = |format: u8, last: u32, groups: usize| {
        let mut data = vec![0, 0, 0, 1, 0, 3, 0, 10, 0, 0, 0, 12];
        data.extend([0, format, 0, 0, 0, 0, 0, 28, 0, 0, 0, 0, 0, 0]);
        data.extend(pair(groups));
        for _ in 0..groups {
            data.extend([0, 0, 0, 0]);
            data.extend(last.to_be_bytes());
            data.extend([0, 0, 0, 0]);
        }
        data
    };
    assert_eq!(family_with(&[(b"cmap", &map(12, 0, 1))]), "A");
    assert!(check_file(&font_with(3, &[0, 65], &[(b"cmap", &map(12, 0x10_ffff, 120))])));
    assert_eq!(family_with(&[(b"cmap", &map(12, 0xffff_ffff, 1))]), "Rouch Micro");
    assert_eq!(family_with(&[(b"cmap", &map(12, 0x10_ffff, 125))]), "Rouch Micro");
    assert_eq!(family_with(&[(b"cmap", &map(13, 0x1000, 10))]), "A");
    assert_eq!(family_with(&[(b"cmap", &map(13, 0x1_ffff, 64))]), "Rouch Micro");
}

#[test]
fn fonts_with_endless_kerning_are_passed_over() {
    let long = |count: u32, length: u8| {
        let mut table = vec![0, 1, 0, 0];
        table.extend(count.to_be_bytes());
        table.extend([0, 0, 0, length, 0, 2, 0, 0]);
        table
    };
    assert_eq!(family_with(&[(b"kern", &long(1000, 0))]), "A");
    assert_eq!(family_with(&[(b"kern", &long(0xffff_ffff, 8))]), "A");
    assert_eq!(family_with(&[(b"kern", &long(0xffff_ffff, 0))]), "Rouch Micro");
    let classes = |glyphs: usize| {
        let mut table = vec![0, 0, 0, 1, 0, 0, 0, 20, 3, 1];
        table.extend(pair(glyphs));
        table.extend([1, 1, 1, 0, 0, 0]);
        table.resize(table.len() + 2 * glyphs + 1, 0);
        table
    };
    assert_eq!(family_with(&[(b"kern", &classes(20))]), "A");
    assert_eq!(family_with(&[(b"kern", &classes(0xffff))]), "Rouch Micro");
}

/// Glyphs that are each put together from two more, the last of which is
/// empty: the tables that say so.
fn nested_glyphs(levels: usize, part: &dyn Fn(usize, bool) -> Vec<u8>) -> [Vec<u8>; 3] {
    let mut profile = vec![0, 0, 0x50, 0];
    profile.extend(pair(levels + 1));
    let mut points = Vec::new();
    let mut places = Vec::new();
    for level in 0..levels {
        places.extend(pair(points.len() / 2));
        points.extend([0xff, 0xff, 0, 0, 0, 0, 0, 0, 0, 0]);
        points.extend(part(level, true));
        points.extend(part(level, false));
    }
    places.extend(pair(points.len() / 2));
    points.extend([0; 10]);
    places.extend(pair(points.len() / 2));
    [profile, points, places]
}

fn family_of_glyphs(tables: &[Vec<u8>; 3]) -> String {
    family_with(&[(b"maxp", &tables[0]), (b"glyf", &tables[1]), (b"loca", &tables[2])])
}

#[test]
fn fonts_with_endless_glyphs_are_passed_over() {
    let next = |level: usize, more: bool| {
        let mut part = vec![0, if more { 0x22 } else { 2 }];
        part.extend(pair(level + 1));
        part.extend([0, 0]);
        part
    };
    assert_eq!(family_of_glyphs(&nested_glyphs(8, &next)), "A");
    assert_eq!(family_of_glyphs(&nested_glyphs(28, &next)), "Rouch Micro");
    // A glyph that is a part of itself is given up at once.
    let same = |level: usize, more: bool| {
        let mut part = next(level, more);
        part[3] = level as u8;
        part
    };
    assert_eq!(family_of_glyphs(&nested_glyphs(1, &same)), "A");
    // Parts that are stretched to nearly twice their size.
    let stretched = |level: usize, more: bool| {
        let mut part = next(level, more);
        part[1] |= 8;
        part.extend([0x7f, 0xff]);
        part
    };
    assert_eq!(family_of_glyphs(&nested_glyphs(1, &stretched)), "A");
    assert_eq!(family_of_glyphs(&nested_glyphs(3, &stretched)), "Rouch Micro");
}

#[test]
fn fonts_with_far_points_are_passed_over() {
    // One contour whose points jump from side to side: two steps further than
    // the last number on the one is the first on the other.
    let glyphs = |points: usize, count: usize| {
        let mut glyph = vec![0, 1, 0, 0, 0, 0, 0, 0, 0, 0];
        glyph.extend(pair(points - 1));
        glyph.extend([0, 0]);
        glyph.extend(vec![0x20; points]);
        for point in 0..points {
            glyph.extend(match point {
                0 => [0x7f, 0xff],
                _ if point % 2 == 0 => [0xff, 0xfe],
                _ => [0, 2],
            });
        }
        let mut profile = vec![0, 0, 0x50, 0];
        profile.extend(pair(count));
        let mut places = Vec::new();
        for place in 0..count + 1 {
            places.extend(pair(if place % 2 == 0 { 0 } else { glyph.len() / 2 }));
        }
        [profile, glyph, places]
    };
    assert_eq!(family_of_glyphs(&glyphs(10, 1)), "A");
    assert_eq!(family_of_glyphs(&glyphs(2000, 8)), "A");
    assert_eq!(family_of_glyphs(&glyphs(40_000, 8)), "Rouch Micro");
}

/// A CFF table with one glyph and these shared subroutines.
fn programs(routines: &[Vec<u8>], glyph: &[u8]) -> Vec<u8> {
    let index = |pieces: &[Vec<u8>]| {
        let mut data = pair(pieces.len()).to_vec();
        if pieces.is_empty() {
            return data;
        }
        data.push(2);
        let mut offset = 1;
        data.extend(pair(offset));
        for piece in pieces {
            offset += piece.len();
            data.extend(pair(offset));
        }
        for piece in pieces {
            data.extend(piece);
        }
        data
    };
    let shared = index(routines);
    let place = 6 + 11 + 2 + shared.len();
    let mut table = vec![1, 0, 4, 4, 0, 0];
    let mut top = vec![28];
    top.extend(pair(place));
    top.push(17);
    table.extend(index(&[top]));
    table.extend([0, 0]);
    table.extend(shared);
    assert_eq!(table.len(), place);
    table.extend(index(&[glyph.to_vec()]));
    table
}

#[test]
fn fonts_with_endless_programs_are_passed_over() {
    // Each subroutine calls the next a number of times.
    let calling = |depth: usize, times: usize| {
        let mut routines = Vec::new();
        for level in 1..depth {
            let mut routine = Vec::new();
            for _ in 0..times {
                routine.extend([32 + level as u8, 29]);
            }
            routine.push(11);
            routines.push(routine);
        }
        routines.push(vec![11]);
        programs(&routines, &[32, 29, 14])
    };
    assert_eq!(family_with(&[(b"CFF ", &calling(3, 5))]), "A");
    assert_eq!(family_with(&[(b"CFF ", &calling(9, 30))]), "Rouch Micro");
    // A call of itself ends at the last level that is followed.
    assert_eq!(family_with(&[(b"CFF ", &programs(&[vec![32, 29, 32, 29]], &[32, 29, 14]))]), "A");
    // A triangle; and a subroutine whose number is not whole.
    let triangle = [139, 139, 21, 239, 139, 5, 139, 239, 5, 14];
    assert_eq!(family_with(&[(b"CFF ", &programs(&[], &triangle))]), "A");
    let broken = [255, 0xff, 0x95, 0x80, 0, 29, 14];
    assert_eq!(family_with(&[(b"CFF ", &programs(&[vec![11]], &broken))]), "Rouch Micro");
}

#[test]
fn glyphs_are_laid_over_within_their_clip() {
    let raster = GlyphRaster {
        xmin: 0,
        ymin: 0,
        width: 2,
        height: 2,
        bitmap: vec![255, 128, 0, 255],
    };
    let mut pixels = vec![0u8; 4 * 4 * 4];
    let clip = clip_rect(Rect::new(0, 0, 2, 4), 4, 4);
    assert_eq!(clip, Rect::new(0, 0, 2, 4));
    blit_glyph(&mut pixels, 4, &raster, 0, 3, 0xc8c8_c8ff, clip);
    let at = |x: usize, y: usize| pixels[(y * 4 + x) * 4];
    assert_eq!(at(0, 1), 200);
    let alpha = (255.0f32 * (128.0f32 / 255.0)) as u32;
    assert_eq!(at(1, 1) as u32, (200 * alpha + 127) / 255);
    assert_eq!(at(0, 2), 0);
    assert_eq!(at(1, 2), 200);
    assert_eq!(at(0, 0), 0);
    for coverage in 1..=255u8 {
        for alpha in [1u8, 100, 255] {
            let one = GlyphRaster {
                xmin: 0,
                ymin: 0,
                width: 1,
                height: 1,
                bitmap: vec![coverage],
            };
            let mut pixel = vec![0u8; 4];
            let color = 0xff00_0000 + alpha as u32;
            blit_glyph(&mut pixel, 1, &one, 0, 1, color, Rect::new(0, 0, 1, 1));
            let share = (alpha as f32 * (f32::from(coverage) / 255.0)) as u32;
            assert_eq!(pixel[0] as u32, (255 * share + 127) / 255);
        }
    }
}
