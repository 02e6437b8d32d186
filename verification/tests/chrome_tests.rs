use suribrows::atlas::{
    next_power_of_two, printable_chars, AtlasError, GlyphAtlas, GlyphInfo, RasterGlyph,
    ATLAS_WIDTH, MAX_ATLAS_HEIGHT, MIN_ATLAS_HEIGHT,
};
use suribrows::chrome::{
    bytemuck_cast_slice, Capability, ChromeRenderer, GlFlags, Quad, StateChange, Vertex,
    CHROME_HEIGHT,
};
use suribrows::config::{ChromeConfig, Rgba};

fn raster(ch: char, width: u32, height: u32) -> RasterGlyph {
    let code = ch as u32;
    RasterGlyph {
        ch,
        width,
        height,
        advance_x: (width + 1) * 64 + 16,
        offset_x: (code % 3) as i32 - 1,
        offset_y: -((code % 4) as i32),
        bitmap: (0..width * height).map(|i| (1 + (i + code) % 255) as u8).collect(),
    }
}

fn blank(ch: char, width: u32, height: u32) -> RasterGlyph {
    RasterGlyph { ch, width, height, advance_x: 64, offset_x: 0, offset_y: 0, bitmap: Vec::new() }
}

fn printable_rasters() -> Vec<RasterGlyph> {
    printable_chars()
        .into_iter()
        .map(|c| {
            if c == ' ' {
                RasterGlyph {
                    ch: c,
                    width: 0,
                    height: 0,
                    advance_x: 4 * 64 + 35,
                    offset_x: 0,
                    offset_y: 0,
                    bitmap: Vec::new(),
                }
            } else {
                let code = c as u32;
                raster(c, 5 + code % 7, 9 + code % 5)
            }
        })
        .collect()
}

fn build_test_atlas() -> GlyphAtlas {
    GlyphAtlas::build(&printable_rasters()).expect("the printable range packs")
}

fn all_glyphs(atlas: &GlyphAtlas) -> Vec<(char, GlyphInfo)> {
    let mut glyphs = Vec::new();
    for code in 0u32..0x3000 {
        if let Some(c) = char::from_u32(code) {
            if let Some(glyph) = atlas.glyph(c) {
                glyphs.push((c, glyph));
            }
        }
    }
    glyphs
}

#[test]
fn test_atlas_contains_all_ascii_printable() {
    let atlas = build_test_atlas();
    for b in 32u8..=126 {
        let c = b as char;
        assert!(
            atlas.glyph(c).is_some(),
            "Atlas missing char '{}' ({})",
            c,
            b
        );
    }
}

#[test]
fn test_atlas_width_is_512() {
    let atlas = build_test_atlas();
    assert_eq!(atlas.width(), 512);
}

#[test]
fn test_atlas_height_valid() {
    let atlas = build_test_atlas();
    assert!(atlas.height() > 0);
    assert!(atlas.height() >= 64, "Atlas height should be >= 64");
}

#[test]
fn test_atlas_pixel_buffer_size() {
    let atlas = build_test_atlas();
    assert_eq!(
        atlas.pixels().len(),
        (atlas.width() * atlas.height()) as usize
    );
}

#[test]
fn test_glyph_advance_positive() {
    let atlas = build_test_atlas();
    let glyphs = all_glyphs(&atlas);
    assert_eq!(glyphs.len(), 95);
    for (c, glyph) in glyphs {
        assert!(
            glyph.advance_x > 0,
            "Glyph '{}' has non-positive advance_x: {}",
            c,
            glyph.advance_x
        );
    }
}

#[test]
fn test_glyphs_within_atlas_bounds() {
    let atlas = build_test_atlas();
    for (c, glyph) in all_glyphs(&atlas) {
        assert!(
            glyph.atlas_x + glyph.width <= atlas.width(),
            "Glyph '{}' exceeds atlas width: {} + {} > {}",
            c,
            glyph.atlas_x,
            glyph.width,
            atlas.width()
        );
        assert!(
            glyph.atlas_y + glyph.height <= atlas.height(),
            "Glyph '{}' exceeds atlas height: {} + {} > {}",
            c,
            glyph.atlas_y,
            glyph.height,
            atlas.height()
        );
    }
}

#[test]
fn test_no_overlapping_glyphs() {
    let atlas = build_test_atlas();
    let glyphs = all_glyphs(&atlas);
    for i in 0..glyphs.len() {
        for j in (i + 1)..glyphs.len() {
            let (c1, g1) = glyphs[i];
            let (c2, g2) = glyphs[j];
            if g1.width == 0 || g1.height == 0 || g2.width == 0 || g2.height == 0 {
                continue;
            }
            let overlap_x =
                g1.atlas_x < g2.atlas_x + g2.width && g2.atlas_x < g1.atlas_x + g1.width;
            let overlap_y =
                g1.atlas_y < g2.atlas_y + g2.height && g2.atlas_y < g1.atlas_y + g1.height;
            assert!(
                !(overlap_x && overlap_y),
                "Glyphs '{}' and '{}' overlap",
                c1,
                c2
            );
        }
    }
}

#[test]
fn test_space_has_zero_dimensions() {
    let atlas = build_test_atlas();
    let space = atlas.glyph(' ').expect("Space glyph missing");
    assert_eq!(space.width, 0, "Space should have width 0");
    assert_eq!(space.height, 0, "Space should have height 0");
    assert!(space.advance_x > 0, "Space should have positive advance");
}

#[test]
fn test_bytemuck_cast_slice_length() {
    let data: [f32; 2] = [1.0, 2.0];
    let words = [data[0].to_bits(), data[1].to_bits()];
    let bytes = bytemuck_cast_slice(&words);
    assert_eq!(bytes.len(), 8);
}

#[test]
fn test_chrome_height_is_40() {
    assert_eq!(CHROME_HEIGHT, 40);
}

#[test]
fn words_are_packed_least_significant_byte_first() {
    assert_eq!(
        bytemuck_cast_slice(&[0x0403_0201, 1.0f32.to_bits()]),
        vec![1, 2, 3, 4, 0x00, 0x00, 0x80, 0x3f]
    );
    assert_eq!(bytemuck_cast_slice(&[1.5f32.to_bits()]), 1.5f32.to_le_bytes().to_vec());
    assert!(bytemuck_cast_slice(&[]).is_empty());
}

#[test]
fn printable_range_is_space_to_tilde() {
    let chars = printable_chars();
    assert_eq!(chars.len(), 95);
    assert_eq!(chars[0], ' ');
    assert_eq!(chars[33], 'A');
    assert_eq!(chars[94], '~');
}

#[test]
fn powers_of_two() {
    assert_eq!(next_power_of_two(0), 1);
    assert_eq!(next_power_of_two(1), 1);
    assert_eq!(next_power_of_two(2), 2);
    assert_eq!(next_power_of_two(3), 4);
    assert_eq!(next_power_of_two(64), 64);
    assert_eq!(next_power_of_two(65), 128);
    assert_eq!(next_power_of_two(16384), 16384);
    assert_eq!(next_power_of_two(20001), 32768);
    assert_eq!(next_power_of_two((1 << 22) + 1), 1 << 23);
    assert_eq!(next_power_of_two(1 << 31), 1 << 31);
}

#[test]
fn glyphs_are_placed_in_rows() {
    let rasters = vec![
        raster('a', 300, 10),
        raster('b', 211, 20),
        raster('c', 1, 5),
        raster(' ', 0, 0),
        raster('d', 512, 70),
        raster('e', 2, 3),
    ];
    let atlas = GlyphAtlas::build(&rasters).unwrap();
    let at = |c: char| {
        let g = atlas.glyph(c).unwrap();
        (g.atlas_x, g.atlas_y, g.width, g.height)
    };
    assert_eq!(at('a'), (0, 0, 300, 10));
    assert_eq!(at('b'), (301, 0, 211, 20));
    assert_eq!(at('c'), (0, 21, 1, 5));
    assert_eq!(at(' '), (2, 21, 0, 0));
    assert_eq!(at('d'), (0, 27, 512, 70));
    assert_eq!(at('e'), (0, 98, 2, 3));
    assert_eq!(atlas.height(), 128);
    assert_eq!(atlas.width(), ATLAS_WIDTH);
    assert!(atlas.glyph('z').is_none());
    let b = atlas.glyph('b').unwrap();
    assert_eq!(b.advance_x, rasters[1].advance_x);
    assert_eq!(b.offset_x, rasters[1].offset_x);
    assert_eq!(b.offset_y, rasters[1].offset_y);
}

#[test]
fn bitmaps_are_copied_and_the_rest_is_zero() {
    let rasters = vec![raster('a', 3, 2), raster('b', 2, 2), raster('c', 510, 1)];
    let atlas = GlyphAtlas::build(&rasters).unwrap();
    assert_eq!(atlas.height(), MIN_ATLAS_HEIGHT);
    let pixels = atlas.pixels();
    let mut expected = vec![0u8; 512 * 64];
    for (i, r) in rasters.iter().enumerate() {
        let (x, y) = [(0usize, 0usize), (4, 0), (0, 3)][i];
        for row in 0..r.height as usize {
            for col in 0..r.width as usize {
                expected[(y + row) * 512 + x + col] = r.bitmap[row * r.width as usize + col];
            }
        }
    }
    assert_eq!(pixels, &expected);
    assert!(pixels[3] == 0 && pixels[6] == 0 && pixels[2 * 512] == 0);
    assert!(pixels[0] != 0 && pixels[4] != 0 && pixels[3 * 512 + 509] != 0);
}

#[test]
fn short_bitmap_leaves_zeros() {
    let mut glyph = raster('a', 2, 2);
    glyph.bitmap.truncate(3);
    let atlas = GlyphAtlas::build(&vec![glyph]).unwrap();
    let pixels = atlas.pixels();
    assert!(pixels[0] != 0 && pixels[1] != 0 && pixels[512] != 0);
    assert_eq!(pixels[513], 0);
}

#[test]
fn empty_atlas_has_least_height() {
    let atlas = GlyphAtlas::build(&Vec::new()).unwrap();
    assert_eq!(atlas.height(), 64);
    assert_eq!(atlas.pixels().len(), 512 * 64);
    assert!(atlas.glyph(' ').is_none());
}

#[test]
fn atlas_errors() {
    assert_eq!(
        GlyphAtlas::build(&vec![raster('a', 1, 1), raster('b', 513, 1)]).err(),
        Some(AtlasError::GlyphTooWide)
    );
    assert_eq!(
        GlyphAtlas::build(&vec![raster('a', 1, 1), raster('b', 2, 1), raster('a', 3, 1)]).err(),
        Some(AtlasError::DuplicateCharacter)
    );
    assert_eq!(MAX_ATLAS_HEIGHT, 1 << 22);
    assert_eq!(
        GlyphAtlas::build(&vec![raster('a', 1, MAX_ATLAS_HEIGHT)]).err(),
        Some(AtlasError::TooTall)
    );
    assert_eq!(
        GlyphAtlas::build(&vec![blank('a', 1, u32::MAX)]).err(),
        Some(AtlasError::TooTall)
    );
    assert_eq!(
        GlyphAtlas::build(&vec![blank('a', 300, 1 << 21), blank('b', 300, 1 << 21)]).err(),
        Some(AtlasError::TooTall)
    );
    assert_eq!(
        GlyphAtlas::build(&vec![raster('a', 513, 1), raster('a', 1, 1)]).err(),
        Some(AtlasError::GlyphTooWide)
    );
    assert_eq!(
        GlyphAtlas::build(&vec![raster('a', 1, 70000), raster('a', 1, 1)]).err(),
        Some(AtlasError::DuplicateCharacter)
    );
    assert_eq!(
        GlyphAtlas::build(&vec![blank('a', 513, 1), blank('b', 1, u32::MAX)]).err(),
        Some(AtlasError::GlyphTooWide)
    );
}

#[test]
fn atlas_grows_as_tall_as_the_rows_need() {
    let atlas = GlyphAtlas::build(&vec![raster('a', 1, 20000)]).unwrap();
    assert_eq!(atlas.height(), 32768);
    assert_eq!(atlas.pixels().len(), 512 * 32768);
    let glyph = atlas.glyph('a').unwrap();
    assert_eq!((glyph.atlas_x, glyph.atlas_y, glyph.width, glyph.height), (0, 0, 1, 20000));
    assert!(atlas.pixels()[19999 * 512] != 0);
    assert_eq!(atlas.pixels()[20000 * 512], 0);

    let rows: Vec<RasterGlyph> = "abcdefgh".chars().map(|c| raster(c, 300, 2047)).collect();
    assert_eq!(GlyphAtlas::build(&rows).unwrap().height(), 16384);
    let rows: Vec<RasterGlyph> = "abcdefgh".chars().map(|c| raster(c, 300, 2048)).collect();
    let atlas = GlyphAtlas::build(&rows).unwrap();
    assert_eq!(atlas.height(), 32768);
    assert_eq!(atlas.glyph('h').unwrap().atlas_y, 7 * 2049);

    let big: Vec<RasterGlyph> = printable_chars()
        .into_iter()
        .map(|c| if c == ' ' { blank(c, 0, 0) } else { raster(c, 400, 450) })
        .collect();
    let atlas = GlyphAtlas::build(&big).unwrap();
    assert_eq!(atlas.height(), 65536);
    for c in printable_chars() {
        let g = atlas.glyph(c).unwrap();
        assert!(g.atlas_x + g.width <= 512 && g.atlas_y + g.height <= 65536);
    }
}

fn small_renderer() -> (ChromeRenderer, Vec<RasterGlyph>) {
    let rasters = vec![
        RasterGlyph {
            ch: ' ',
            width: 0,
            height: 0,
            advance_x: 4 * 64,
            offset_x: 0,
            offset_y: 0,
            bitmap: Vec::new(),
        },
        RasterGlyph {
            ch: 'a',
            width: 8,
            height: 9,
            advance_x: 9 * 64 + 32,
            offset_x: 1,
            offset_y: 0,
            bitmap: vec![255; 72],
        },
        RasterGlyph {
            ch: 'g',
            width: 7,
            height: 12,
            advance_x: 8 * 64,
            offset_x: -1,
            offset_y: -3,
            bitmap: vec![255; 84],
        },
    ];
    let renderer = ChromeRenderer::new(&rasters, &ChromeConfig::default()).unwrap();
    (renderer, rasters)
}

fn flat(x: i64, y: i64, w: i64, h: i64, color: Rgba) -> Quad {
    Quad { x, y, w, h, u0: 0, v0: 0, u1: 0, v1: 0, textured: false, color }
}

const NONE_ON: GlFlags = GlFlags { blend: false, depth_test: false, scissor_test: false };

#[test]
fn frame_of_an_unfocused_bar() {
    let (renderer, _) = small_renderer();
    let frame = renderer.draw(800, 600, "ag", false, None, NONE_ON);
    assert_eq!((frame.viewport_width, frame.viewport_height), (800, 600));
    assert_eq!((frame.atlas_width, frame.atlas_height), (512, 64));
    let text = Rgba::grey(930);
    assert_eq!(
        frame.quads,
        vec![
            flat(0, 0, 800 * 64, 40 * 64, Rgba::grey(170)),
            flat(384, 384, 800 * 64 - 768, 40 * 64 - 768, Rgba::grey(300)),
            flat(448, 448, 800 * 64 - 768 - 128, 40 * 64 - 768 - 128, Rgba::grey(130)),
            Quad {
                x: 1664 + 64,
                y: 1621 - 9 * 64,
                w: 8 * 64,
                h: 9 * 64,
                u0: 1,
                v0: 0,
                u1: 9,
                v1: 9,
                textured: true,
                color: text,
            },
            Quad {
                x: 1664 + 9 * 64 + 32 - 64,
                y: 1621 + 3 * 64 - 12 * 64,
                w: 7 * 64,
                h: 12 * 64,
                u0: 10,
                v0: 0,
                u1: 17,
                v1: 12,
                textured: true,
                color: text,
            },
        ]
    );
}

#[test]
fn caret_follows_the_cursor() {
    let (renderer, _) = small_renderer();
    let caret = |x: i64| flat(x, (40 * 64 - (1024 + 256)) / 2, 128, 1024 + 256, Rgba::grey(1000));
    let frame = renderer.draw(800, 600, "a g", true, Some(0), NONE_ON);
    assert_eq!(frame.quads.len(), 6);
    assert_eq!(frame.quads[0], flat(0, 0, 800 * 64, 40 * 64, Rgba::grey(230)));
    assert_eq!(frame.quads[5], caret(1664));
    let frame = renderer.draw(800, 600, "a g", true, Some(1), NONE_ON);
    assert_eq!(frame.quads[5], caret(1664 + 608));
    let frame = renderer.draw(800, 600, "a g", true, Some(2), NONE_ON);
    assert_eq!(frame.quads[5], caret(1664 + 608 + 256));
    let frame = renderer.draw(800, 600, "a g", true, Some(3), NONE_ON);
    assert_eq!(frame.quads[5], caret(1664 + 608 + 256 + 512));
    let frame = renderer.draw(800, 600, "a g", true, Some(4), NONE_ON);
    assert_eq!(frame.quads.len(), 5);
    let frame = renderer.draw(800, 600, "a g", false, Some(1), NONE_ON);
    assert_eq!(frame.quads.len(), 5);
    let frame = renderer.draw(800, 600, "a g", true, None, NONE_ON);
    assert_eq!(frame.quads.len(), 5);
}

#[test]
fn characters_without_glyph_move_the_pen_like_a_space() {
    let (renderer, _) = small_renderer();
    let frame = renderer.draw(800, 600, "\u{e9}\u{4e2d}a", true, Some(2), NONE_ON);
    assert_eq!(frame.quads.len(), 5);
    assert_eq!(frame.quads[3].x, 1664 + 2 * 256 + 64);
    assert_eq!(frame.quads[4].x, 1664 + 2 * 256);

    let only_a = vec![RasterGlyph {
        ch: 'a',
        width: 8,
        height: 9,
        advance_x: 600,
        offset_x: 0,
        offset_y: 0,
        bitmap: vec![1; 72],
    }];
    let renderer = ChromeRenderer::new(&only_a, &ChromeConfig::default()).unwrap();
    let frame = renderer.draw(800, 600, "xa", true, Some(1), NONE_ON);
    assert_eq!(frame.quads[3].x, 1664 + 512);
    assert_eq!(frame.quads[4].x, 1664 + 512);
}

#[test]
fn text_is_cut_off_at_the_right_padding() {
    let (renderer, _) = small_renderer();
    // The pen may go as far as 384 + (60 * 64 - 768) - 512 = 2944.
    let frame = renderer.draw(60, 600, "aaaaaa", true, Some(3), NONE_ON);
    let xs: Vec<i64> = frame.quads[3..].iter().map(|q| q.x).collect();
    assert_eq!(xs, vec![1664 + 64, 2272 + 64, 2880 + 64, 1664 + 3 * 608]);
    let frame = renderer.draw(60, 600, "aaaaaa", true, Some(4), NONE_ON);
    assert_eq!(frame.quads.len(), 6);
    let frame = renderer.draw(0, 600, "a", true, Some(0), NONE_ON);
    assert_eq!(frame.quads.len(), 4);
    assert_eq!(frame.quads[3].x, 1664);
    assert_eq!(frame.quads[1], flat(384, 384, -768, 1792, Rgba::grey(300)));
    let frame = renderer.draw(0, 600, "a", true, Some(1), NONE_ON);
    assert_eq!(frame.quads.len(), 3);
}

#[test]
fn caret_of_a_font_taller_than_the_bar() {
    let (_, rasters) = small_renderer();
    let mut config = ChromeConfig::default();
    config.font_size = 40 * 64 + 1;
    let renderer = ChromeRenderer::new(&rasters, &config).unwrap();
    let frame = renderer.draw(800, 600, "", true, Some(0), NONE_ON);
    assert_eq!(frame.quads[3].y, -128);
    assert_eq!(frame.quads[3].h, 40 * 64 + 1 + 256);
}

#[test]
fn renderer_keeps_its_atlas() {
    let (renderer, rasters) = small_renderer();
    assert_eq!(renderer.atlas().glyph('g').unwrap().atlas_x, 10);
    assert_eq!(renderer.atlas().width(), 512);
    assert!(ChromeRenderer::new(&vec![raster('a', 600, 1)], &ChromeConfig::default()).is_err());
    assert_eq!(rasters.len(), 3);
}

#[test]
fn quad_corners_make_two_triangles() {
    let quad = Quad {
        x: 10,
        y: 20,
        w: 30,
        h: 40,
        u0: 1,
        v0: 2,
        u1: 3,
        v1: 4,
        textured: true,
        color: Rgba::grey(0),
    };
    let v = |x: i64, y: i64, u: u32, v: u32| Vertex { x, y, u, v };
    assert_eq!(
        quad.vertices(),
        [
            v(10, 20, 1, 2),
            v(40, 20, 3, 2),
            v(40, 60, 3, 4),
            v(10, 20, 1, 2),
            v(40, 60, 3, 4),
            v(10, 60, 1, 4),
        ]
    );
}

#[test]
fn switches_are_restored_whatever_was_on() {
    for bits in 0..8u8 {
        let found = GlFlags {
            blend: bits & 1 != 0,
            depth_test: bits & 2 != 0,
            scissor_test: bits & 4 != 0,
        };
        let (renderer, _) = small_renderer();
        let mut flags = found;
        for _ in 0..3 {
            let frame = renderer.draw(800, 600, "a", true, Some(1), flags);
            flags = flags.apply_all(&frame.setup);
            assert_eq!(
                flags,
                GlFlags { blend: true, depth_test: false, scissor_test: false }
            );
            flags = flags.apply_all(&frame.restore);
            assert_eq!(flags, found);
        }
    }
}

#[test]
fn setup_and_restore_changes() {
    assert_eq!(
        GlFlags::setup(),
        vec![
            StateChange::Disable(Capability::DepthTest),
            StateChange::Disable(Capability::ScissorTest),
            StateChange::Enable(Capability::Blend),
        ]
    );
    let all_on = GlFlags { blend: true, depth_test: true, scissor_test: true };
    assert_eq!(
        all_on.restore(),
        vec![
            StateChange::Enable(Capability::DepthTest),
            StateChange::Enable(Capability::ScissorTest),
        ]
    );
    assert_eq!(NONE_ON.restore(), vec![StateChange::Disable(Capability::Blend)]);
    assert_eq!(
        NONE_ON.apply(StateChange::Enable(Capability::ScissorTest)),
        GlFlags { blend: false, depth_test: false, scissor_test: true }
    );
}
