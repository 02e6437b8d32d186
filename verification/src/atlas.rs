//! The glyph atlas: rasterized glyphs packed in rows into one single-channel image.

use std::collections::HashMap;
use std::collections::HashSet;
use vstd::prelude::*;

verus! {

broadcast use vstd::std_specs::hash::group_hash_axioms;

/// Width of every atlas in pixels.
pub const ATLAS_WIDTH: u32 = 512;

/// Least height of an atlas in pixels.
pub const MIN_ATLAS_HEIGHT: u32 = 64;

/// Greatest height of an atlas in pixels: the greatest power of two for which the number of
/// pixels, the width times the height, is still a `u32`.
pub const MAX_ATLAS_HEIGHT: u32 = 0x40_0000;

/// First character of the printable range that an atlas is built for.
pub const FIRST_PRINTABLE: char = ' ';

/// Last character of the printable range that an atlas is built for.
pub const LAST_PRINTABLE: char = '~';

/// One rasterized glyph, as the rasterizer gave it.
#[derive(Debug)]
pub struct RasterGlyph {
    /// The character.
    pub ch: char,
    /// Width of the bitmap in pixels.
    pub width: u32,
    /// Height of the bitmap in pixels.
    pub height: u32,
    /// Horizontal advance, in 64ths of a pixel.
    pub advance_x: u32,
    /// Offset of the bitmap's left edge from the pen, in pixels.
    pub offset_x: i32,
    /// Offset of the bitmap's bottom edge from the baseline, in pixels, upwards.
    pub offset_y: i32,
    /// Coverage of each pixel, row by row from the top left.
    pub bitmap: Vec<u8>,
}

/// Where a glyph lies in the atlas, and how the pen moves for it.
#[derive(Debug, Clone, Copy, PartialEq, Eq)]
pub struct GlyphInfo {
    /// Left edge in the atlas, in pixels.
    pub atlas_x: u32,
    /// Top edge in the atlas, in pixels.
    pub atlas_y: u32,
    /// Width in pixels.
    pub width: u32,
    /// Height in pixels.
    pub height: u32,
    /// Horizontal advance, in 64ths of a pixel.
    pub advance_x: u32,
    /// Offset of the left edge from the pen, in pixels.
    pub offset_x: i32,
    /// Offset of the bottom edge from the baseline, in pixels, upwards.
    pub offset_y: i32,
}

/// Why no atlas could be built.
#[derive(Debug, Clone, Copy, PartialEq, Eq)]
pub enum AtlasError {
    /// A glyph is wider than the atlas.
    GlyphTooWide,
    /// A character occurs twice.
    DuplicateCharacter,
    /// The rows are so many that the number of pixels of the image is no `u32`.
    TooTall,
}

/// The packing pen: where the next glyph would go, and the height of the row so far.
pub struct Pen {
    pub x: int,
    pub y: int,
    pub row_height: int,
}

/// The pen moved to a new row where a glyph of `width` does not fit before the right edge.
pub open spec fn wrapped(pen: Pen, width: int) -> Pen {
    if pen.x + width > ATLAS_WIDTH {
        Pen { x: 0, y: pen.y + pen.row_height + 1, row_height: 0 }
    } else {
        pen
    }
}

/// The pen before glyph `i` is placed, all glyphs before it having been placed in order.
pub open spec fn pen_before(rasters: Seq<RasterGlyph>, i: int) -> Pen
    decreases i,
{
    if i <= 0 {
        Pen { x: 0, y: 0, row_height: 0 }
    } else {
        let glyph = rasters[i - 1];
        let pen = wrapped(pen_before(rasters, i - 1), glyph.width as int);
        Pen {
            x: pen.x + glyph.width + 1,
            y: pen.y,
            row_height: if pen.row_height >= glyph.height {
                pen.row_height
            } else {
                glyph.height as int
            },
        }
    }
}

/// The place and measures of glyph `i`.
pub open spec fn cell_of(rasters: Seq<RasterGlyph>, i: int) -> GlyphInfo {
    let glyph = rasters[i];
    let pen = wrapped(pen_before(rasters, i), glyph.width as int);
    GlyphInfo {
        atlas_x: pen.x as u32,
        atlas_y: pen.y as u32,
        width: glyph.width,
        height: glyph.height,
        advance_x: glyph.advance_x,
        offset_x: glyph.offset_x,
        offset_y: glyph.offset_y,
    }
}

/// The number of pixel rows that the first `i` glyphs take, with one row to spare.
pub open spec fn extent_before(rasters: Seq<RasterGlyph>, i: int) -> int {
    pen_before(rasters, i).y + pen_before(rasters, i).row_height + 1
}

/// The least power of two that is at least `n`, found by doubling `p`.
pub open spec fn doubled_until(p: nat, n: nat) -> nat
    decreases if p < n { n - p } else { 0 },
{
    if p >= n || p == 0 {
        p
    } else {
        doubled_until(2 * p, n)
    }
}

/// The height of the atlas whose rows take `extent` pixel rows.
pub open spec fn atlas_height(extent: nat) -> nat {
    if doubled_until(1, extent) >= MIN_ATLAS_HEIGHT {
        doubled_until(1, extent)
    } else {
        MIN_ATLAS_HEIGHT as nat
    }
}

/// The coverage that a glyph's bitmap holds for the pixel in `row` and `col` of its box; zero
/// where the bitmap is too short.
pub open spec fn coverage(glyph: RasterGlyph, row: int, col: int) -> u8 {
    if 0 <= row * glyph.width + col < glyph.bitmap@.len() {
        glyph.bitmap@[row * glyph.width + col]
    } else {
        0
    }
}

/// Some glyph is wider than the atlas.
pub open spec fn some_too_wide(rasters: Seq<RasterGlyph>) -> bool {
    exists|i: int| 0 <= i < rasters.len() && (#[trigger] rasters[i]).width > ATLAS_WIDTH
}

/// Some character occurs twice.
pub open spec fn some_duplicate(rasters: Seq<RasterGlyph>) -> bool {
    exists|i: int, j: int|
        0 <= i < j < rasters.len() && (#[trigger] rasters[i]).ch == (#[trigger] rasters[j]).ch
}

/// Why no atlas can be built from `rasters`, or `None` where one can.
pub open spec fn build_error(rasters: Seq<RasterGlyph>) -> Option<AtlasError> {
    if some_too_wide(rasters) {
        Some(AtlasError::GlyphTooWide)
    } else if some_duplicate(rasters) {
        Some(AtlasError::DuplicateCharacter)
    } else if ATLAS_WIDTH * atlas_height(extent_before(rasters, rasters.len() as int) as nat)
        > u32::MAX {
        Some(AtlasError::TooTall)
    } else {
        None
    }
}

impl GlyphInfo {
    /// The glyph takes room in the atlas.
    pub open spec fn inked(self) -> bool {
        self.width > 0 && self.height > 0
    }

    /// The pixel lies in the glyph's box.
    pub open spec fn covers(self, x: int, y: int) -> bool {
        self.atlas_x <= x < self.atlas_x + self.width && self.atlas_y <= y < self.atlas_y
            + self.height
    }

    /// The two boxes have a pixel in common.
    pub open spec fn overlaps(self, other: GlyphInfo) -> bool {
        &&& self.atlas_x < other.atlas_x + other.width
        &&& other.atlas_x < self.atlas_x + self.width
        &&& self.atlas_y < other.atlas_y + other.height
        &&& other.atlas_y < self.atlas_y + self.height
    }
}

/// An atlas as a value.
pub struct AtlasView {
    pub width: nat,
    pub height: nat,
    pub glyphs: Map<char, GlyphInfo>,
    pub pixels: Seq<u8>,
}

impl AtlasView {
    /// The pixel in column `x` of row `y`.
    pub open spec fn pixel(self, x: int, y: int) -> u8 {
        pixel_at(self.pixels, x, y)
    }

    /// The atlas is the one that packing `rasters` gives: each glyph lies where the pen
    /// stood for it, the image holds each bitmap in its box and is zero elsewhere.
    pub open spec fn packs(self, rasters: Seq<RasterGlyph>) -> bool {
        let n = rasters.len() as int;
        &&& self.width == ATLAS_WIDTH
        &&& self.height == atlas_height(extent_before(rasters, n) as nat)
        &&& self.pixels.len() == self.width * self.height
        &&& forall|c: char|
            self.glyphs.contains_key(c) <==> exists|i: int|
                0 <= i < n && (#[trigger] rasters[i]).ch == c
        &&& forall|i: int|
            0 <= i < n ==> self.glyphs[(#[trigger] rasters[i]).ch] == cell_of(rasters, i)
        &&& forall|i: int, row: int, col: int|
            0 <= i < n && 0 <= row < rasters[i].height && 0 <= col < rasters[i].width
                ==> self.pixel(
                cell_of(rasters, i).atlas_x + col,
                cell_of(rasters, i).atlas_y + row,
            ) == #[trigger] coverage(rasters[i], row, col)
        &&& forall|x: int, y: int|
            0 <= x < self.width && 0 <= y < self.height && (forall|i: int|
                0 <= i < n ==> !(#[trigger] cell_of(rasters, i)).covers(x, y)) ==> #[trigger] self.pixel(
                x,
                y,
            ) == 0
    }

    /// The image has the atlas's measures, every glyph lies within it, and no two glyphs that
    /// take room overlap.
    pub open spec fn well_packed(self) -> bool {
        &&& self.width == ATLAS_WIDTH
        &&& MIN_ATLAS_HEIGHT <= self.height <= MAX_ATLAS_HEIGHT
        &&& self.pixels.len() == self.width * self.height
        &&& forall|c: char| #[trigger]
            self.glyphs.contains_key(c) ==> self.glyphs[c].atlas_x + self.glyphs[c].width
                <= self.width && self.glyphs[c].atlas_y + self.glyphs[c].height <= self.height
        &&& forall|c: char, d: char|
            #![trigger self.glyphs.contains_key(c), self.glyphs.contains_key(d)]
            self.glyphs.contains_key(c) && self.glyphs.contains_key(d) && c != d
                && self.glyphs[c].inked() && self.glyphs[d].inked() ==> !self.glyphs[c].overlaps(
                self.glyphs[d],
            )
    }
}

/// Doubling from a power of two reaches a value that is at least `n` and below `2 * n`.
pub proof fn lemma_doubled_until(p: nat, n: nat)
    requires
        p >= 1,
        p < 2 * n,
    ensures
        doubled_until(p, n) >= n,
        doubled_until(p, n) >= p,
        doubled_until(p, n) < 2 * n,
    decreases if p < n { n - p } else { 0 },
{
    if p < n {
        lemma_doubled_until(2 * p, n);
    }
}

/// Doubling from `p` stays at or below every bound that is `p` times a power of two.
pub proof fn lemma_doubled_until_below(p: nat, n: nat, bound: nat, k: nat)
    requires
        p >= 1,
        n <= bound,
        bound == p * vstd::arithmetic::power2::pow2(k),
    ensures
        doubled_until(p, n) <= bound,
    decreases if p < n { n - p } else { 0 },
{
    vstd::arithmetic::power2::lemma_pow2_pos(k);
    if p < n {
        assert(k > 0) by {
            if k == 0 {
                vstd::arithmetic::power2::lemma2_to64();
            }
        }
        vstd::arithmetic::power2::lemma_pow2_unfold(k);
        assert(p * (2 * vstd::arithmetic::power2::pow2((k - 1) as nat)) == (2 * p)
            * vstd::arithmetic::power2::pow2((k - 1) as nat)) by (nonlinear_arith);
        lemma_doubled_until_below(2 * p, n, bound, (k - 1) as nat);
    } else {
        assert(p * vstd::arithmetic::power2::pow2(k) >= p) by (nonlinear_arith)
            requires
                vstd::arithmetic::power2::pow2(k) >= 1,
        ;
    }
}

/// Doubling from a power of two goes past the greatest height in one step: for more rows
/// than that, it gives at least twice the greatest height.
pub proof fn lemma_doubled_until_skips(p: nat, n: nat, k: nat)
    requires
        p >= 1,
        p * vstd::arithmetic::power2::pow2(k) == 2 * MAX_ATLAS_HEIGHT,
        n > MAX_ATLAS_HEIGHT,
    ensures
        doubled_until(p, n) >= 2 * MAX_ATLAS_HEIGHT,
    decreases k,
{
    vstd::arithmetic::power2::lemma_pow2_pos(k);
    if k == 0 {
        vstd::arithmetic::power2::lemma2_to64();
        if p < n {
            lemma_doubled_until(2 * p, n);
        }
    } else {
        vstd::arithmetic::power2::lemma_pow2_unfold(k);
        let half = vstd::arithmetic::power2::pow2((k - 1) as nat);
        vstd::arithmetic::power2::lemma_pow2_pos((k - 1) as nat);
        assert(p * (2 * half) == (2 * p) * half) by (nonlinear_arith);
        assert(p <= MAX_ATLAS_HEIGHT) by (nonlinear_arith)
            requires
                p * (2 * half) == 2 * MAX_ATLAS_HEIGHT,
                half >= 1,
                p >= 1,
        ;
        lemma_doubled_until_skips(2 * p, n, (k - 1) as nat);
    }
}

/// The rows are too many exactly when there are more of them than the greatest height.
pub proof fn lemma_too_tall(extent: nat)
    ensures
        ATLAS_WIDTH * atlas_height(extent) > u32::MAX <==> extent > MAX_ATLAS_HEIGHT,
{
    vstd::arithmetic::power2::lemma2_to64();
    if extent > MAX_ATLAS_HEIGHT {
        lemma_doubled_until_skips(1, extent, 23);
    } else {
        lemma_doubled_until_below(1, extent, MAX_ATLAS_HEIGHT as nat, 22);
    }
}

/// The least power of two that is at least `n`.
pub fn next_power_of_two(n: u32) -> (p: u32)
    requires
        n <= 0x8000_0000,
    ensures
        p == doubled_until(1, n as nat),
        n <= p,
        p == 1 || p < 2 * n,
{
    let mut p: u32 = 1;
    proof {
        vstd::arithmetic::power2::lemma2_to64();
        lemma_doubled_until_below(1, n as nat, 0x8000_0000, 31);
        if n >= 1 {
            lemma_doubled_until(1, n as nat);
        }
    }
    while p < n
        invariant
            1 <= p <= 0x8000_0000,
            n <= 0x8000_0000,
            doubled_until(p as nat, n as nat) == doubled_until(1, n as nat),
            doubled_until(1, n as nat) <= 0x8000_0000,
            doubled_until(p as nat, n as nat) >= p,
            p == 1 || p < 2 * n,
        decreases if p < n { n - p } else { 0 },
    {
        proof {
            lemma_doubled_until(2 * p as nat, n as nat);
        }
        p = p * 2;
    }
    p
}

/// The rows never shrink as more glyphs are placed.
pub proof fn lemma_extent_monotone(rasters: Seq<RasterGlyph>, i: int, j: int)
    requires
        0 <= i <= j,
    ensures
        extent_before(rasters, i) <= extent_before(rasters, j),
        pen_before(rasters, i).y >= 0,
        pen_before(rasters, i).row_height >= 0,
        pen_before(rasters, i).x >= 0,
    decreases j - i,
{
    lemma_pen_nonnegative(rasters, i);
    if i < j {
        lemma_pen_nonnegative(rasters, j - 1);
        lemma_extent_monotone(rasters, i, j - 1);
    }
}

/// The pen never leaves the first quadrant.
pub proof fn lemma_pen_nonnegative(rasters: Seq<RasterGlyph>, i: int)
    ensures
        pen_before(rasters, i).y >= 0,
        pen_before(rasters, i).row_height >= 0,
        pen_before(rasters, i).x >= 0,
    decreases i,
{
    if i > 0 {
        lemma_pen_nonnegative(rasters, i - 1);
    }
}

/// The glyph boxes lie within an image of `extent` rows, and no two that take room overlap.
pub open spec fn tidy(cells: Seq<GlyphInfo>, extent: int) -> bool {
    &&& forall|j: int|
        0 <= j < cells.len() ==> (#[trigger] cells[j]).atlas_x + cells[j].width <= ATLAS_WIDTH
            && cells[j].atlas_y + cells[j].height < extent
    &&& forall|a: int, b: int|
        0 <= a < b < cells.len() && (#[trigger] cells[a]).inked() && (#[trigger] cells[b]).inked()
            ==> !cells[a].overlaps(cells[b])
}

/// No glyph is wider than the atlas.
fn all_fit_width(rasters: &Vec<RasterGlyph>) -> (r: bool)
    ensures
        r == !some_too_wide(rasters@),
{
    let mut i: usize = 0;
    while i < rasters.len()
        invariant
            i <= rasters.len(),
            forall|j: int| 0 <= j < i ==> (#[trigger] rasters@[j]).width <= ATLAS_WIDTH,
        decreases rasters.len() - i,
    {
        if rasters[i].width > ATLAS_WIDTH {
            return false;
        }
        i = i + 1;
    }
    true
}

/// No character occurs twice.
fn all_distinct(rasters: &Vec<RasterGlyph>) -> (r: bool)
    ensures
        r == !some_duplicate(rasters@),
{
    let mut seen: HashSet<u32> = HashSet::new();
    let mut i: usize = 0;
    while i < rasters.len()
        invariant
            i <= rasters.len(),
            forall|a: int, b: int|
                0 <= a < b < i ==> (#[trigger] rasters@[a]).ch != (#[trigger] rasters@[b]).ch,
            forall|k: u32|
                seen@.contains(k) <==> exists|j: int|
                    0 <= j < i && (#[trigger] rasters@[j]).ch as u32 == k,
        decreases rasters.len() - i,
    {
        let key = rasters[i].ch as u32;
        if seen.contains(&key) {
            proof {
                let j = choose|j: int| 0 <= j < i && (#[trigger] rasters@[j]).ch as u32 == key;
                assert(rasters@[j].ch == rasters@[i as int].ch);
            }
            return false;
        }
        seen.insert(key);
        i = i + 1;
    }
    true
}

/// Places the glyphs in rows from left to right; `None` where the rows grow too tall.
fn layout(rasters: &Vec<RasterGlyph>) -> (r: Option<(Vec<GlyphInfo>, u32)>)
    requires
        !some_too_wide(rasters@),
    ensures
        match r {
            None => extent_before(rasters@, rasters@.len() as int) > MAX_ATLAS_HEIGHT,
            Some((cells, extent)) => {
                &&& extent == extent_before(rasters@, rasters@.len() as int)
                &&& extent <= MAX_ATLAS_HEIGHT
                &&& cells@.len() == rasters@.len()
                &&& forall|j: int| 0 <= j < cells@.len() ==> cells@[j] == cell_of(rasters@, j)
                &&& tidy(cells@, extent as int)
            },
        },
{
    let n = rasters.len();
    let mut x: u32 = 0;
    let mut y: u32 = 0;
    let mut row_height: u32 = 0;
    let mut cells: Vec<GlyphInfo> = Vec::new();
    let mut i: usize = 0;
    while i < n
        invariant
            i <= n == rasters.len(),
            !some_too_wide(rasters@),
            pen_before(rasters@, i as int) == (Pen {
                x: x as int,
                y: y as int,
                row_height: row_height as int,
            }),
            x <= ATLAS_WIDTH + 1,
            y + row_height + 1 <= MAX_ATLAS_HEIGHT,
            cells@.len() == i,
            forall|j: int| 0 <= j < i ==> cells@[j] == cell_of(rasters@, j),
            forall|j: int|
                0 <= j < i ==> (#[trigger] cells@[j]).atlas_x + cells@[j].width <= ATLAS_WIDTH,
            forall|j: int|
                0 <= j < i ==> (#[trigger] cells@[j]).atlas_y + cells@[j].height < y || (
                cells@[j].atlas_y == y && cells@[j].atlas_x + cells@[j].width < x
                    && cells@[j].height <= row_height),
            forall|a: int, b: int|
                0 <= a < b < i && (#[trigger] cells@[a]).inked() && (#[trigger] cells@[b]).inked()
                    ==> !cells@[a].overlaps(cells@[b]),
        decreases n - i,
    {
        let glyph = &rasters[i];
        let w = glyph.width;
        let h = glyph.height;
        assert(w <= ATLAS_WIDTH) by {
            assert(rasters@[i as int].width <= ATLAS_WIDTH);
        }
        proof {
            lemma_extent_monotone(rasters@, i + 1, n as int);
        }
        if h > MAX_ATLAS_HEIGHT {
            return None;
        }
        if x + w > ATLAS_WIDTH {
            x = 0;
            y = y + row_height + 1;
            row_height = 0;
        }
        if row_height < h {
            row_height = h;
        }
        if y + row_height + 1 > MAX_ATLAS_HEIGHT {
            return None;
        }
        let cell = GlyphInfo {
            atlas_x: x,
            atlas_y: y,
            width: w,
            height: h,
            advance_x: glyph.advance_x,
            offset_x: glyph.offset_x,
            offset_y: glyph.offset_y,
        };
        cells.push(cell);
        x = x + w + 1;
        i = i + 1;
    }
    Some((cells, y + row_height + 1))
}

/// The pixel in column `x` of row `y` of an image as wide as the atlas.
pub open spec fn pixel_at(pixels: Seq<u8>, x: int, y: int) -> u8 {
    pixels[y * ATLAS_WIDTH + x]
}

/// The pixel in `row` and `col` of a glyph's box comes before the one in `r` and `c`, rows
/// being filled from the top and each row from the left.
pub open spec fn filled_before(r: int, c: int, row: int, col: int) -> bool {
    row < r || (row == r && col < c)
}

/// No glyph before glyph `i` covers the pixel.
pub open spec fn free_of(cells: Seq<GlyphInfo>, i: int, x: int, y: int) -> bool {
    forall|j: int| 0 <= j < i ==> !(#[trigger] cells[j]).covers(x, y)
}

/// The image holds the bitmaps of the glyphs before glyph `i`, each in its box.
pub open spec fn holds_bitmaps(
    pixels: Seq<u8>,
    rasters: Seq<RasterGlyph>,
    cells: Seq<GlyphInfo>,
    i: int,
) -> bool {
    forall|j: int, row: int, col: int|
        0 <= j < i && 0 <= row < cells[j].height && 0 <= col < cells[j].width ==> pixel_at(
            pixels,
            cells[j].atlas_x + col,
            cells[j].atlas_y + row,
        ) == #[trigger] coverage(rasters[j], row, col)
}

/// Copies each bitmap into its box of an image of `height` rows that is zero elsewhere.
fn paint(rasters: &Vec<RasterGlyph>, cells: &Vec<GlyphInfo>, height: u32) -> (pixels: Vec<u8>)
    requires
        cells@.len() == rasters@.len(),
        forall|j: int|
            0 <= j < cells@.len() ==> (#[trigger] cells@[j]).width == rasters@[j].width
                && cells@[j].height == rasters@[j].height,
        tidy(cells@, height as int),
        height <= MAX_ATLAS_HEIGHT,
    ensures
        pixels@.len() == ATLAS_WIDTH * height,
        holds_bitmaps(pixels@, rasters@, cells@, cells@.len() as int),
        forall|x: int, y: int|
            0 <= x < ATLAS_WIDTH && 0 <= y < height && free_of(cells@, cells@.len() as int, x, y)
                ==> #[trigger] pixel_at(pixels@, x, y) == 0,
{
    let n = cells.len();
    assert(ATLAS_WIDTH * height <= 0x8000_0000) by (nonlinear_arith)
        requires
            height <= 0x40_0000,
            ATLAS_WIDTH == 512,
    ;
    let count: u32 = ATLAS_WIDTH * height;
    let total: usize = count as usize;
    let mut pixels: Vec<u8> = vec![0u8; total];
    assert(pixels@.len() == ATLAS_WIDTH * height);
    assert forall|x: int, y: int| 0 <= x < ATLAS_WIDTH && 0 <= y < height implies #[trigger] pixel_at(
        pixels@,
        x,
        y,
    ) == 0 by {
        assert(0 <= y * ATLAS_WIDTH + x < pixels@.len());
    }
    let mut i: usize = 0;
    while i < n
        invariant
            i <= n == cells.len(),
            cells@.len() == rasters@.len(),
            forall|j: int|
                0 <= j < cells@.len() ==> (#[trigger] cells@[j]).width == rasters@[j].width
                    && cells@[j].height == rasters@[j].height,
            tidy(cells@, height as int),
            height <= MAX_ATLAS_HEIGHT,
            pixels@.len() == ATLAS_WIDTH * height,
            holds_bitmaps(pixels@, rasters@, cells@, i as int),
            forall|x: int, y: int|
                0 <= x < ATLAS_WIDTH && 0 <= y < height && free_of(cells@, i as int, x, y)
                    ==> #[trigger] pixel_at(pixels@, x, y) == 0,
        decreases n - i,
    {
        let cell = cells[i];
        let glyph = &rasters[i];
        let mut row: u32 = 0;
        while row < cell.height
            invariant
                i < n == cells.len(),
                cell == cells@[i as int],
                glyph == rasters@[i as int],
                cells@.len() == rasters@.len(),
                cell.width == glyph.width,
                cell.height == glyph.height,
                tidy(cells@, height as int),
                height <= MAX_ATLAS_HEIGHT,
                row <= cell.height,
                pixels@.len() == ATLAS_WIDTH * height,
                holds_bitmaps(pixels@, rasters@, cells@, i as int),
                forall|r: int, c: int|
                    0 <= r < row && 0 <= c < cell.width ==> pixel_at(
                        pixels@,
                        cell.atlas_x + c,
                        cell.atlas_y + r,
                    ) == #[trigger] coverage(*glyph, r, c),
                forall|x: int, y: int|
                    0 <= x < ATLAS_WIDTH && 0 <= y < height && free_of(cells@, i as int, x, y) && !(
                    cell.covers(x, y) && y - cell.atlas_y < row) ==> #[trigger] pixel_at(
                        pixels@,
                        x,
                        y,
                    ) == 0,
            decreases cell.height - row,
        {
            let mut col: u32 = 0;
            while col < cell.width
                invariant
                    i < n == cells.len(),
                    cell == cells@[i as int],
                    glyph == rasters@[i as int],
                    cells@.len() == rasters@.len(),
                    cell.width == glyph.width,
                    cell.height == glyph.height,
                    tidy(cells@, height as int),
                    height <= MAX_ATLAS_HEIGHT,
                    row < cell.height,
                    col <= cell.width,
                    pixels@.len() == ATLAS_WIDTH * height,
                    holds_bitmaps(pixels@, rasters@, cells@, i as int),
                    forall|r: int, c: int|
                        0 <= r < cell.height && 0 <= c < cell.width && filled_before(
                            row as int,
                            col as int,
                            r,
                            c,
                        ) ==> pixel_at(pixels@, cell.atlas_x + c, cell.atlas_y + r)
                            == #[trigger] coverage(*glyph, r, c),
                    forall|x: int, y: int|
                        0 <= x < ATLAS_WIDTH && 0 <= y < height && free_of(cells@, i as int, x, y)
                            && !(cell.covers(x, y) && filled_before(
                            row as int,
                            col as int,
                            y - cell.atlas_y,
                            x - cell.atlas_x,
                        )) ==> #[trigger] pixel_at(pixels@, x, y) == 0,
                decreases cell.width - col,
            {
                assert(cell.atlas_x + cell.width <= ATLAS_WIDTH && cell.atlas_y + cell.height
                    < height);
                assert(row * cell.width + col < MAX_ATLAS_HEIGHT * ATLAS_WIDTH)
                    by (nonlinear_arith)
                    requires
                        row < cell.height <= MAX_ATLAS_HEIGHT,
                        col < cell.width <= ATLAS_WIDTH,
                ;
                let src: usize = (row as usize) * (cell.width as usize) + (col as usize);
                let value: u8 = if src < glyph.bitmap.len() {
                    glyph.bitmap[src]
                } else {
                    0
                };
                assert((cell.atlas_y + row) * ATLAS_WIDTH + cell.atlas_x + col < ATLAS_WIDTH
                    * height <= 0x8000_0000);
                let dst: usize = ((cell.atlas_y + row) as usize) * (ATLAS_WIDTH as usize) + ((
                cell.atlas_x + col) as usize);
                let ghost before = pixels@;
                pixels.set(dst, value);
                proof {
                    let px = cell.atlas_x + col;
                    let py = cell.atlas_y + row;
                    assert(value == coverage(*glyph, row as int, col as int));
                    assert forall|x: int, y: int|
                        0 <= x < ATLAS_WIDTH && 0 <= y < height && !(x == px && y == py) implies
                        #[trigger] pixel_at(pixels@, x, y) == pixel_at(before, x, y) by {
                        assert(y * ATLAS_WIDTH + x != dst);
                    }
                    assert(pixel_at(pixels@, px, py) == value);
                    assert(cell.covers(px, py));
                    assert forall|j: int, r: int, c: int|
                        0 <= j < i && 0 <= r < cells@[j].height && 0 <= c < cells@[j].width implies
                        pixel_at(pixels@, cells@[j].atlas_x + c, cells@[j].atlas_y + r)
                            == #[trigger] coverage(rasters@[j], r, c) by {
                        let other = cells@[j];
                        assert(other.inked() && cells@[i as int].inked());
                        assert(!other.overlaps(cells@[i as int]));
                        assert(other.covers(other.atlas_x + c, other.atlas_y + r));
                        assert(pixel_at(before, other.atlas_x + c, other.atlas_y + r) == coverage(
                            rasters@[j],
                            r,
                            c,
                        ));
                    }
                    assert forall|r: int, c: int|
                        0 <= r < cell.height && 0 <= c < cell.width && filled_before(
                            row as int,
                            col + 1,
                            r,
                            c,
                        ) implies pixel_at(pixels@, cell.atlas_x + c, cell.atlas_y + r)
                        == #[trigger] coverage(*glyph, r, c) by {
                        if !(r == row && c == col) {
                            assert(filled_before(row as int, col as int, r, c));
                        }
                    }
                }
                col = col + 1;
            }
            proof {
                assert forall|r: int, c: int| 0 <= r < row + 1 && 0 <= c < cell.width implies pixel_at(
                    pixels@,
                    cell.atlas_x + c,
                    cell.atlas_y + r,
                ) == #[trigger] coverage(*glyph, r, c) by {
                    assert(filled_before(row as int, col as int, r, c));
                }
            }
            row = row + 1;
        }
        proof {
            assert forall|x: int, y: int|
                0 <= x < ATLAS_WIDTH && 0 <= y < height && free_of(
                    cells@,
                    i + 1,
                    x,
                    y,
                ) implies #[trigger] pixel_at(pixels@, x, y) == 0 by {
                assert(!cells@[i as int].covers(x, y));
                assert(free_of(cells@, i as int, x, y));
            }
        }
        i = i + 1;
    }
    pixels
}

/// An atlas that holds the glyphs where the layout put them is the packed atlas of the
/// rasters, and is well packed.
proof fn lemma_atlas_of_layout(
    view: AtlasView,
    rasters: Seq<RasterGlyph>,
    cells: Seq<GlyphInfo>,
    extent: int,
)
    requires
        !some_duplicate(rasters),
        cells.len() == rasters.len(),
        forall|j: int| 0 <= j < cells.len() ==> cells[j] == cell_of(rasters, j),
        tidy(cells, extent),
        extent == extent_before(rasters, rasters.len() as int),
        view.width == ATLAS_WIDTH,
        view.height == atlas_height(extent as nat),
        extent <= view.height <= MAX_ATLAS_HEIGHT,
        view.height >= MIN_ATLAS_HEIGHT,
        view.pixels.len() == ATLAS_WIDTH * view.height,
        forall|c: char|
            view.glyphs.contains_key(c) <==> exists|i: int|
                0 <= i < rasters.len() && (#[trigger] rasters[i]).ch == c,
        forall|i: int|
            0 <= i < rasters.len() ==> view.glyphs[(#[trigger] rasters[i]).ch] == cells[i],
        holds_bitmaps(view.pixels, rasters, cells, cells.len() as int),
        forall|x: int, y: int|
            0 <= x < ATLAS_WIDTH && 0 <= y < view.height && free_of(cells, cells.len() as int, x, y)
                ==> #[trigger] pixel_at(view.pixels, x, y) == 0,
    ensures
        view.packs(rasters),
        view.well_packed(),
{
    let n = rasters.len() as int;
    assert forall|c: char| #[trigger] view.glyphs.contains_key(c) implies view.glyphs[c].atlas_x
        + view.glyphs[c].width <= view.width && view.glyphs[c].atlas_y + view.glyphs[c].height
        <= view.height by {
        let i = choose|i: int| 0 <= i < n && (#[trigger] rasters[i]).ch == c;
        assert(view.glyphs[rasters[i].ch] == cells[i]);
    }
    assert forall|c: char, d: char|
        #![trigger view.glyphs.contains_key(c), view.glyphs.contains_key(d)]
        view.glyphs.contains_key(c) && view.glyphs.contains_key(d) && c != d
            && view.glyphs[c].inked() && view.glyphs[d].inked() implies !view.glyphs[c].overlaps(
        view.glyphs[d],
    ) by {
        let i = choose|i: int| 0 <= i < n && (#[trigger] rasters[i]).ch == c;
        let j = choose|j: int| 0 <= j < n && (#[trigger] rasters[j]).ch == d;
        assert(view.glyphs[rasters[i].ch] == cells[i]);
        assert(view.glyphs[rasters[j].ch] == cells[j]);
        if i < j {
            assert(cells[i].inked() && cells[j].inked());
            assert(!cells[i].overlaps(cells[j]));
        } else {
            assert(cells[j].inked() && cells[i].inked());
            assert(!cells[j].overlaps(cells[i]));
        }
    }
    assert forall|i: int, row: int, col: int|
        0 <= i < n && 0 <= row < rasters[i].height && 0 <= col < rasters[i].width implies view.pixel(
        cell_of(rasters, i).atlas_x + col,
        cell_of(rasters, i).atlas_y + row,
    ) == #[trigger] coverage(rasters[i], row, col) by {
        assert(cells[i] == cell_of(rasters, i));
    }
    assert forall|x: int, y: int|
        0 <= x < view.width && 0 <= y < view.height && (forall|i: int|
            0 <= i < n ==> !(#[trigger] cell_of(rasters, i)).covers(x, y)) implies #[trigger] view.pixel(
        x,
        y,
    ) == 0 by {
        assert forall|j: int| 0 <= j < n implies !(#[trigger] cells[j]).covers(x, y) by {
            assert(!cell_of(rasters, j).covers(x, y));
        }
        assert(free_of(cells, n, x, y));
    }
}

/// The glyphs by the code point of their character.
fn index(rasters: &Vec<RasterGlyph>, cells: &Vec<GlyphInfo>) -> (glyphs: HashMap<u32, GlyphInfo>)
    requires
        cells@.len() == rasters@.len(),
        !some_duplicate(rasters@),
    ensures
        forall|k: u32|
            glyphs@.contains_key(k) <==> exists|i: int|
                0 <= i < rasters@.len() && (#[trigger] rasters@[i]).ch as u32 == k,
        forall|i: int|
            0 <= i < rasters@.len() ==> glyphs@[(#[trigger] rasters@[i]).ch as u32] == cells@[i],
{
    let mut glyphs: HashMap<u32, GlyphInfo> = HashMap::new();
    let mut i: usize = 0;
    while i < rasters.len()
        invariant
            i <= rasters.len() == cells.len(),
            !some_duplicate(rasters@),
            forall|k: u32|
                glyphs@.contains_key(k) <==> exists|j: int|
                    0 <= j < i && (#[trigger] rasters@[j]).ch as u32 == k,
            forall|j: int| 0 <= j < i ==> glyphs@[(#[trigger] rasters@[j]).ch as u32] == cells@[j],
        decreases rasters.len() - i,
    {
        let key = rasters[i].ch as u32;
        proof {
            assert forall|j: int| 0 <= j < i implies (#[trigger] rasters@[j]).ch as u32 != key by {
                assert(rasters@[j].ch != rasters@[i as int].ch);
            }
        }
        glyphs.insert(key, cells[i]);
        i = i + 1;
    }
    glyphs
}

/// The characters of the printable range, in order.
pub fn printable_chars() -> (chars: Vec<char>)
    ensures
        chars@.len() == 95,
        forall|i: int| 0 <= i < 95 ==> chars@[i] as u32 == 32 + i,
{
    let mut chars: Vec<char> = Vec::new();
    let mut b: u8 = 32;
    while b <= 126
        invariant
            32 <= b <= 127,
            chars@.len() == b - 32,
            forall|i: int| 0 <= i < chars@.len() ==> chars@[i] as u32 == 32 + i,
        decreases 127 - b,
    {
        chars.push(b as char);
        b = b + 1;
    }
    chars
}

/// The glyph atlas.
pub struct GlyphAtlas {
    width: u32,
    height: u32,
    glyphs: HashMap<u32, GlyphInfo>,
    pixels: Vec<u8>,
}

impl View for GlyphAtlas {
    type V = AtlasView;

    closed spec fn view(&self) -> AtlasView {
        AtlasView {
            width: self.width as nat,
            height: self.height as nat,
            glyphs: Map::new(
                |c: char| self.glyphs@.contains_key(c as u32),
                |c: char| self.glyphs@[c as u32],
            ),
            pixels: self.pixels@,
        }
    }
}

impl GlyphAtlas {
    #[verifier::type_invariant]
    spec fn well_formed(self) -> bool {
        self@.well_packed()
    }

    /// Packs the rasterized glyphs into an atlas.
    pub fn build(rasters: &Vec<RasterGlyph>) -> (r: Result<GlyphAtlas, AtlasError>)
        ensures
            match r {
                Ok(atlas) => build_error(rasters@) is None && atlas@.packs(rasters@)
                    && atlas@.well_packed(),
                Err(e) => build_error(rasters@) == Some(e),
            },
    {
        if !all_fit_width(rasters) {
            return Err(AtlasError::GlyphTooWide);
        }
        if !all_distinct(rasters) {
            return Err(AtlasError::DuplicateCharacter);
        }
        let (cells, extent) = match layout(rasters) {
            Some(placed) => placed,
            None => {
                proof {
                    lemma_pen_nonnegative(rasters@, rasters@.len() as int);
                    lemma_too_tall(extent_before(rasters@, rasters@.len() as int) as nat);
                }
                return Err(AtlasError::TooTall);
            },
        };
        proof {
            vstd::arithmetic::power2::lemma2_to64();
            lemma_doubled_until_below(1, extent as nat, MAX_ATLAS_HEIGHT as nat, 22);
            lemma_too_tall(extent as nat);
        }
        let rounded = next_power_of_two(extent);
        let height = if rounded < MIN_ATLAS_HEIGHT {
            MIN_ATLAS_HEIGHT
        } else {
            rounded
        };
        let pixels = paint(rasters, &cells, height);
        let glyphs = index(rasters, &cells);
        proof {
            let view = AtlasView {
                width: ATLAS_WIDTH as nat,
                height: height as nat,
                glyphs: Map::new(
                    |c: char| glyphs@.contains_key(c as u32),
                    |c: char| glyphs@[c as u32],
                ),
                pixels: pixels@,
            };
            assert forall|c: char| view.glyphs.contains_key(c) implies exists|i: int|
                0 <= i < rasters@.len() && (#[trigger] rasters@[i]).ch == c by {
                let i = choose|i: int|
                    0 <= i < rasters@.len() && (#[trigger] rasters@[i]).ch as u32 == c as u32;
                vstd::utf8::char_u32_cast(c, c as u32);
                vstd::utf8::char_u32_cast(rasters@[i].ch, c as u32);
            }
            assert forall|c: char|
                (exists|i: int|
                    0 <= i < rasters@.len() && (#[trigger] rasters@[i]).ch
                        == c) implies view.glyphs.contains_key(c) by {
                let i = choose|i: int| 0 <= i < rasters@.len() && (#[trigger] rasters@[i]).ch == c;
                assert(rasters@[i].ch as u32 == c as u32);
            }
            assert forall|i: int| 0 <= i < rasters@.len() implies view.glyphs[(
            #[trigger] rasters@[i]).ch] == cells@[i] by {
                assert(glyphs@.contains_key(rasters@[i].ch as u32));
            }
            lemma_atlas_of_layout(view, rasters@, cells@, extent as int);
        }
        let atlas = GlyphAtlas { width: ATLAS_WIDTH, height, glyphs, pixels };
        Ok(atlas)
    }

    /// Width of the image in pixels.
    pub fn width(&self) -> (w: u32)
        ensures
            w == self@.width,
            w == ATLAS_WIDTH,
    {
        proof {
            use_type_invariant(self);
        }
        self.width
    }

    /// Height of the image in pixels.
    pub fn height(&self) -> (h: u32)
        ensures
            h == self@.height,
            MIN_ATLAS_HEIGHT <= h <= MAX_ATLAS_HEIGHT,
    {
        proof {
            use_type_invariant(self);
        }
        self.height
    }

    /// The image, row by row from the top left, one byte of coverage for each pixel.
    pub fn pixels(&self) -> (p: &Vec<u8>)
        ensures
            p@ == self@.pixels,
            p@.len() == self@.width * self@.height,
    {
        proof {
            use_type_invariant(self);
        }
        &self.pixels
    }

    /// The glyph of `c`, where the atlas has one.
    pub fn glyph(&self, c: char) -> (g: Option<GlyphInfo>)
        ensures
            self@.well_packed(),
            match g {
                Some(info) => self@.glyphs.contains_key(c) && self@.glyphs[c] == info,
                None => !self@.glyphs.contains_key(c),
            },
    {
        proof {
            use_type_invariant(self);
        }
        let key = c as u32;
        match self.glyphs.get(&key) {
            Some(info) => Some(*info),
            None => None,
        }
    }
}

/// An atlas packed from rasters of the printable range, in order, has a glyph for every
/// character of that range; and as every atlas, it holds each glyph within its image and no
/// two glyphs that take room on common pixels.
pub proof fn lemma_printable_range_covered(atlas: AtlasView, rasters: Seq<RasterGlyph>)
    requires
        atlas.packs(rasters),
        rasters.len() == 95,
        forall|i: int| 0 <= i < 95 ==> (#[trigger] rasters[i]).ch as u32 == 32 + i,
    ensures
        forall|c: char|
            FIRST_PRINTABLE <= c <= LAST_PRINTABLE ==> #[trigger] atlas.glyphs.contains_key(c),
        forall|c: char|
            FIRST_PRINTABLE <= c <= LAST_PRINTABLE ==> (#[trigger] atlas.glyphs[c]).width
                == rasters[c as u32 - 32].width && atlas.glyphs[c].height == rasters[c as u32
                - 32].height && atlas.glyphs[c].advance_x == rasters[c as u32 - 32].advance_x,
{
    assert forall|c: char| FIRST_PRINTABLE <= c <= LAST_PRINTABLE implies #[trigger] atlas.glyphs.contains_key(
        c,
    ) && atlas.glyphs[c] == cell_of(rasters, c as u32 - 32) by {
        let i = c as u32 - 32;
        vstd::utf8::char_u32_cast(c, c as u32);
        vstd::utf8::char_u32_cast(rasters[i].ch, c as u32);
        assert(rasters[i].ch == c);
    }
}

} // verus!
