//! The chrome bar: what is painted each frame, from the field's text and the glyph atlas.
//!
//! Positions and sizes on screen are in 64ths of a pixel, with the origin at the top left
//! of the window and `y` growing downwards.

use crate::atlas::{AtlasError, AtlasView, GlyphAtlas, GlyphInfo, RasterGlyph, build_error};
use crate::config::{ChromeConfig, Rgba};
use vstd::prelude::*;
use vstd::string::StrSliceExecFns;

verus! {

/// Height of the chrome bar in physical pixels.
pub const CHROME_HEIGHT: u32 = 40;

/// Number of position units in one pixel.
pub const SUBPIXELS: i64 = 64;

/// Width of the caret in pixels.
pub const CARET_WIDTH: i64 = 2;

/// A switch of the GPU that painting the bar touches.
#[derive(Debug, Clone, Copy, PartialEq, Eq)]
pub enum Capability {
    Blend,
    DepthTest,
    ScissorTest,
}

/// Which of the switches are on.
#[derive(Debug, Clone, Copy, PartialEq, Eq)]
pub struct GlFlags {
    pub blend: bool,
    pub depth_test: bool,
    pub scissor_test: bool,
}

/// Turning one switch on or off.
#[derive(Debug, Clone, Copy, PartialEq, Eq)]
pub enum StateChange {
    Enable(Capability),
    Disable(Capability),
}

/// One corner of a quad: where it lies on screen, and which atlas pixel it shows.
#[derive(Debug, Clone, Copy, PartialEq, Eq)]
pub struct Vertex {
    pub x: i64,
    pub y: i64,
    pub u: u32,
    pub v: u32,
}

/// One draw call: a rectangle on screen, in one colour, flat or shaped by a box of the atlas.
#[derive(Debug, Clone, Copy, PartialEq, Eq)]
pub struct Quad {
    pub x: i64,
    pub y: i64,
    pub w: i64,
    pub h: i64,
    /// Left, top, right and bottom edge of the atlas box, in atlas pixels.
    pub u0: u32,
    pub v0: u32,
    pub u1: u32,
    pub v1: u32,
    /// Whether the atlas gives the coverage of each pixel.
    pub textured: bool,
    pub color: Rgba,
}

/// What one call of `draw` paints, and what it does to the GPU's switches around it.
#[derive(Debug)]
pub struct Frame {
    pub viewport_width: u32,
    pub viewport_height: u32,
    /// Measures of the atlas: a texture coordinate is an atlas pixel divided by them.
    pub atlas_width: u32,
    pub atlas_height: u32,
    /// The switches to set before the first quad.
    pub setup: Vec<StateChange>,
    /// The quads, in the order in which they are painted.
    pub quads: Vec<Quad>,
    /// The switches to set after the last quad.
    pub restore: Vec<StateChange>,
}

/// A frame as a value.
pub struct FrameView {
    pub viewport_width: u32,
    pub viewport_height: u32,
    pub atlas_width: u32,
    pub atlas_height: u32,
    pub setup: Seq<StateChange>,
    pub quads: Seq<Quad>,
    pub restore: Seq<StateChange>,
}

impl View for Frame {
    type V = FrameView;

    open spec fn view(&self) -> FrameView {
        FrameView {
            viewport_width: self.viewport_width,
            viewport_height: self.viewport_height,
            atlas_width: self.atlas_width,
            atlas_height: self.atlas_height,
            setup: self.setup@,
            quads: self.quads@,
            restore: self.restore@,
        }
    }
}

impl GlFlags {
    /// The switches after one change.
    pub open spec fn after(self, change: StateChange) -> GlFlags {
        match change {
            StateChange::Enable(Capability::Blend) => GlFlags { blend: true, ..self },
            StateChange::Enable(Capability::DepthTest) => GlFlags { depth_test: true, ..self },
            StateChange::Enable(Capability::ScissorTest) => GlFlags { scissor_test: true, ..self },
            StateChange::Disable(Capability::Blend) => GlFlags { blend: false, ..self },
            StateChange::Disable(Capability::DepthTest) => GlFlags { depth_test: false, ..self },
            StateChange::Disable(Capability::ScissorTest) => GlFlags {
                scissor_test: false,
                ..self
            },
        }
    }

    /// The switches after the changes, made in order.
    pub open spec fn after_all(self, changes: Seq<StateChange>) -> GlFlags
        decreases changes.len(),
    {
        if changes.len() == 0 {
            self
        } else {
            self.after_all(changes.drop_last()).after(changes.last())
        }
    }

    /// The switches while the bar is painted: blending on, depth and scissor tests off.
    pub open spec fn painting() -> GlFlags {
        GlFlags { blend: true, depth_test: false, scissor_test: false }
    }

    /// The changes that bring any switches to those for painting.
    pub open spec fn setup_changes() -> Seq<StateChange> {
        seq![
            StateChange::Disable(Capability::DepthTest),
            StateChange::Disable(Capability::ScissorTest),
            StateChange::Enable(Capability::Blend),
        ]
    }

    /// The changes that bring the switches for painting back to `self`.
    pub open spec fn restore_changes(self) -> Seq<StateChange> {
        let depth = if self.depth_test {
            seq![StateChange::Enable(Capability::DepthTest)]
        } else {
            Seq::empty()
        };
        let blend = if !self.blend {
            seq![StateChange::Disable(Capability::Blend)]
        } else {
            Seq::empty()
        };
        let scissor = if self.scissor_test {
            seq![StateChange::Enable(Capability::ScissorTest)]
        } else {
            Seq::empty()
        };
        depth + blend + scissor
    }
}

impl Quad {
    /// The six corners of the two triangles that make the quad: top left, top right, bottom
    /// right; top left, bottom right, bottom left.
    pub open spec fn corners(self) -> Seq<Vertex> {
        seq![
            Vertex { x: self.x, y: self.y, u: self.u0, v: self.v0 },
            Vertex { x: (self.x + self.w) as i64, y: self.y, u: self.u1, v: self.v0 },
            Vertex { x: (self.x + self.w) as i64, y: (self.y + self.h) as i64, u: self.u1, v: self.v1 },
            Vertex { x: self.x, y: self.y, u: self.u0, v: self.v0 },
            Vertex { x: (self.x + self.w) as i64, y: (self.y + self.h) as i64, u: self.u1, v: self.v1 },
            Vertex { x: self.x, y: (self.y + self.h) as i64, u: self.u0, v: self.v1 },
        ]
    }

    /// The right and bottom edges are representable.
    pub open spec fn in_range(self) -> bool {
        &&& i64::MIN <= self.x + self.w <= i64::MAX
        &&& i64::MIN <= self.y + self.h <= i64::MAX
    }

    /// The six corners of the two triangles that make the quad.
    pub fn vertices(&self) -> (corners: [Vertex; 6])
        requires
            self.in_range(),
        ensures
            corners@ == self.corners(),
    {
        let right = self.x + self.w;
        let bottom = self.y + self.h;
        let corners = [
            Vertex { x: self.x, y: self.y, u: self.u0, v: self.v0 },
            Vertex { x: right, y: self.y, u: self.u1, v: self.v0 },
            Vertex { x: right, y: bottom, u: self.u1, v: self.v1 },
            Vertex { x: self.x, y: self.y, u: self.u0, v: self.v0 },
            Vertex { x: right, y: bottom, u: self.u1, v: self.v1 },
            Vertex { x: self.x, y: bottom, u: self.u0, v: self.v1 },
        ];
        assert(corners@ =~= self.corners());
        corners
    }
}

/// Half of `v`, rounded towards zero.
pub open spec fn half(v: int) -> int {
    if v >= 0 {
        v / 2
    } else {
        -((-v) / 2)
    }
}

/// A flat rectangle in one colour.
pub open spec fn flat_quad(x: int, y: int, w: int, h: int, color: Rgba) -> Quad {
    Quad {
        x: x as i64,
        y: y as i64,
        w: w as i64,
        h: h as i64,
        u0: 0,
        v0: 0,
        u1: 0,
        v1: 0,
        textured: false,
        color,
    }
}

/// The renderer as a value: its settings and its atlas.
pub struct RendererView {
    pub config: ChromeConfig,
    pub atlas: AtlasView,
}

impl RendererView {
    /// Height of the bar.
    pub open spec fn bar_height(self) -> int {
        self.config.height * SUBPIXELS
    }

    /// Width of the input field in a window `width` pixels wide.
    pub open spec fn field_width(self, width: u32) -> int {
        width * SUBPIXELS - 2 * self.config.bar_margin
    }

    /// Height of the input field.
    pub open spec fn field_height(self) -> int {
        self.bar_height() - 2 * self.config.bar_margin
    }

    /// Where the pen starts.
    pub open spec fn text_x(self) -> int {
        self.config.bar_margin + self.config.bar_h_pad + self.config.text_left_pad
    }

    /// The pen position behind which no further character is painted.
    pub open spec fn max_text_x(self, width: u32) -> int {
        self.config.bar_margin + self.field_width(width) - self.config.bar_h_pad
    }

    /// Height of the baseline: the middle of the bar and a third of the font size below it.
    pub open spec fn baseline(self) -> int {
        self.bar_height() / 2 + self.config.font_size / 3
    }

    /// How far the pen moves for `c`: by its glyph's advance, or for a character that the
    /// atlas lacks by that of the space, or by half the font size where the atlas lacks both.
    pub open spec fn advance_of(self, c: char) -> int {
        if self.atlas.glyphs.contains_key(c) {
            self.atlas.glyphs[c].advance_x as int
        } else if self.atlas.glyphs.contains_key(' ') {
            self.atlas.glyphs[' '].advance_x as int
        } else {
            (self.config.font_size / 2) as int
        }
    }

    /// The pen position before character `i` of `text`.
    pub open spec fn pen_at(self, text: Seq<char>, i: int) -> int
        decreases i,
    {
        if i <= 0 {
            self.text_x()
        } else {
            self.pen_at(text, i - 1) + self.advance_of(text[i - 1])
        }
    }

    /// Character `i` of `text` is reached before the text is cut off.
    pub open spec fn reached(self, width: u32, text: Seq<char>, i: int) -> bool {
        self.pen_at(text, i) <= self.max_text_x(width)
    }

    /// The quad of glyph `g` with the pen at `pen_x`.
    pub open spec fn glyph_quad(self, pen_x: int, g: GlyphInfo) -> Quad {
        Quad {
            x: (pen_x + g.offset_x * SUBPIXELS) as i64,
            y: (self.baseline() - g.offset_y * SUBPIXELS - g.height * SUBPIXELS) as i64,
            w: (g.width * SUBPIXELS) as i64,
            h: (g.height * SUBPIXELS) as i64,
            u0: g.atlas_x,
            v0: g.atlas_y,
            u1: (g.atlas_x + g.width) as u32,
            v1: (g.atlas_y + g.height) as u32,
            textured: true,
            color: self.config.colors.text,
        }
    }

    /// Character `i` of `text` is painted: it is reached, and its glyph takes room.
    pub open spec fn painted(self, width: u32, text: Seq<char>, i: int) -> bool {
        &&& self.reached(width, text, i)
        &&& self.atlas.glyphs.contains_key(text[i])
        &&& self.atlas.glyphs[text[i]].inked()
    }

    /// The quads of the first `n` characters of `text`.
    pub open spec fn text_quads(self, width: u32, text: Seq<char>, n: int) -> Seq<Quad>
        decreases n,
    {
        if n <= 0 {
            Seq::empty()
        } else if self.painted(width, text, n - 1) {
            self.text_quads(width, text, n - 1).push(
                self.glyph_quad(self.pen_at(text, n - 1), self.atlas.glyphs[text[n - 1]]),
            )
        } else {
            self.text_quads(width, text, n - 1)
        }
    }

    /// Where the caret stands for a cursor behind `k` characters: at the start of the text,
    /// or behind character `k - 1` where that one is reached.
    pub open spec fn caret_x(self, width: u32, text: Seq<char>, cursor: Option<usize>) -> Option<int> {
        match cursor {
            None => None,
            Some(k) => if k == 0 {
                Some(self.text_x())
            } else if k <= text.len() && self.reached(width, text, k - 1) {
                Some(self.pen_at(text, k as int))
            } else {
                None
            },
        }
    }

    /// The caret: two pixels wide, four pixels taller than the font, in the middle of the bar.
    pub open spec fn caret_quad(self, x: int) -> Quad {
        let h = self.config.font_size + 4 * SUBPIXELS;
        flat_quad(x, half(self.bar_height() - h), CARET_WIDTH * SUBPIXELS, h, self.config.colors.cursor)
    }

    /// The bar's background, across the window.
    pub open spec fn background_quad(self, width: u32, focused: bool) -> Quad {
        flat_quad(
            0,
            0,
            width * SUBPIXELS,
            self.bar_height(),
            if focused {
                self.config.colors.background_focused
            } else {
                self.config.colors.background
            },
        )
    }

    /// The input field's frame.
    pub open spec fn border_quad(self, width: u32) -> Quad {
        flat_quad(
            self.config.bar_margin as int,
            self.config.bar_margin as int,
            self.field_width(width),
            self.field_height(),
            self.config.colors.bar_border,
        )
    }

    /// The input field's inside, one pixel within its frame.
    pub open spec fn field_quad(self, width: u32) -> Quad {
        flat_quad(
            self.config.bar_margin + SUBPIXELS,
            self.config.bar_margin + SUBPIXELS,
            self.field_width(width) - 2 * SUBPIXELS,
            self.field_height() - 2 * SUBPIXELS,
            self.config.colors.bar_background,
        )
    }

    /// The quads of one frame: background, frame and inside of the field, the text, and the
    /// caret where the field has the focus and the caret has a place.
    pub open spec fn quads(
        self,
        width: u32,
        text: Seq<char>,
        focused: bool,
        cursor: Option<usize>,
    ) -> Seq<Quad> {
        let fixed = seq![
            self.background_quad(width, focused),
            self.border_quad(width),
            self.field_quad(width),
        ];
        let glyphs = self.text_quads(width, text, text.len() as int);
        match self.caret_x(width, text, cursor) {
            Some(x) if focused => (fixed + glyphs).push(self.caret_quad(x)),
            _ => fixed + glyphs,
        }
    }

    /// The frame that `draw` paints.
    pub open spec fn frame(
        self,
        width: u32,
        height: u32,
        text: Seq<char>,
        focused: bool,
        cursor: Option<usize>,
        enabled: GlFlags,
    ) -> FrameView {
        FrameView {
            viewport_width: width,
            viewport_height: height,
            atlas_width: self.atlas.width as u32,
            atlas_height: self.atlas.height as u32,
            setup: GlFlags::setup_changes(),
            quads: self.quads(width, text, focused, cursor),
            restore: enabled.restore_changes(),
        }
    }
}

impl RendererView {
    /// Where the caret stands, as far as the first `n` characters tell.
    pub open spec fn caret_within(
        self,
        width: u32,
        text: Seq<char>,
        cursor: Option<usize>,
        n: int,
    ) -> Option<int> {
        match cursor {
            None => None,
            Some(k) => if k == 0 {
                Some(self.text_x())
            } else if k <= n && self.reached(width, text, k - 1) {
                Some(self.pen_at(text, k as int))
            } else {
                None
            },
        }
    }

    /// The pen never moves to the left.
    pub proof fn lemma_pen_monotone(self, text: Seq<char>, i: int, j: int)
        requires
            i <= j,
        ensures
            self.pen_at(text, i) <= self.pen_at(text, j),
            self.text_x() <= self.pen_at(text, i),
        decreases j,
    {
        if j > 0 && i < j {
            self.lemma_pen_monotone(text, i, j - 1);
        } else if i > 0 {
            self.lemma_pen_monotone(text, i - 1, i - 1);
        }
    }

    /// Once a character is not reached, none behind it is.
    pub proof fn lemma_cut_off(self, width: u32, text: Seq<char>, i: int, j: int)
        requires
            i <= j,
            !self.reached(width, text, i),
        ensures
            !self.reached(width, text, j),
    {
        self.lemma_pen_monotone(text, i, j);
    }
}

impl GlFlags {
    /// The switches after one change.
    pub fn apply(self, change: StateChange) -> (r: GlFlags)
        ensures
            r == self.after(change),
    {
        match change {
            StateChange::Enable(Capability::Blend) => GlFlags { blend: true, ..self },
            StateChange::Enable(Capability::DepthTest) => GlFlags { depth_test: true, ..self },
            StateChange::Enable(Capability::ScissorTest) => GlFlags { scissor_test: true, ..self },
            StateChange::Disable(Capability::Blend) => GlFlags { blend: false, ..self },
            StateChange::Disable(Capability::DepthTest) => GlFlags { depth_test: false, ..self },
            StateChange::Disable(Capability::ScissorTest) => GlFlags {
                scissor_test: false,
                ..self
            },
        }
    }

    /// The switches after the changes, made in order.
    pub fn apply_all(self, changes: &Vec<StateChange>) -> (r: GlFlags)
        ensures
            r == self.after_all(changes@),
    {
        let mut flags = self;
        let mut i: usize = 0;
        assert(changes@.take(0) =~= Seq::<StateChange>::empty());
        while i < changes.len()
            invariant
                i <= changes.len(),
                flags == self.after_all(changes@.take(i as int)),
            decreases changes.len() - i,
        {
            assert(changes@.take(i + 1).drop_last() =~= changes@.take(i as int));
            flags = flags.apply(changes[i]);
            i = i + 1;
        }
        assert(changes@.take(i as int) =~= changes@);
        flags
    }

    /// The changes to make before painting.
    pub fn setup() -> (changes: Vec<StateChange>)
        ensures
            changes@ == GlFlags::setup_changes(),
    {
        let mut changes: Vec<StateChange> = Vec::new();
        changes.push(StateChange::Disable(Capability::DepthTest));
        changes.push(StateChange::Disable(Capability::ScissorTest));
        changes.push(StateChange::Enable(Capability::Blend));
        assert(changes@ =~= GlFlags::setup_changes());
        changes
    }

    /// The changes to make after painting, `self` being the switches found before it.
    pub fn restore(self) -> (changes: Vec<StateChange>)
        ensures
            changes@ == self.restore_changes(),
    {
        let mut changes: Vec<StateChange> = Vec::new();
        if self.depth_test {
            changes.push(StateChange::Enable(Capability::DepthTest));
        }
        if !self.blend {
            changes.push(StateChange::Disable(Capability::Blend));
        }
        if self.scissor_test {
            changes.push(StateChange::Enable(Capability::ScissorTest));
        }
        assert(changes@ =~= self.restore_changes());
        changes
    }
}

/// The switches after each of the frames has been painted in turn.
pub open spec fn after_frames(flags: GlFlags, frames: Seq<FrameView>) -> GlFlags
    decreases frames.len(),
{
    if frames.len() == 0 {
        flags
    } else {
        after_frames(flags, frames.drop_last()).after_all(frames.last().setup).after_all(
            frames.last().restore,
        )
    }
}

/// Whatever switches are on, the setup brings those for painting, and the restoring changes
/// bring back what was found.
pub proof fn lemma_restore_undoes_setup(found: GlFlags)
    ensures
        found.after_all(GlFlags::setup_changes()) == GlFlags::painting(),
        found.after_all(GlFlags::setup_changes()).after_all(found.restore_changes()) == found,
{
    reveal_with_fuel(GlFlags::after_all, 5);
    let setup = GlFlags::setup_changes();
    assert(setup.drop_last() =~= seq![
        StateChange::Disable(Capability::DepthTest),
        StateChange::Disable(Capability::ScissorTest),
    ]);
    assert(setup.drop_last().drop_last() =~= seq![StateChange::Disable(Capability::DepthTest)]);
    assert(setup.drop_last().drop_last().drop_last() =~= Seq::<StateChange>::empty());
    assert(found.after_all(setup) == GlFlags::painting());
    let restore = found.restore_changes();
    let depth = StateChange::Enable(Capability::DepthTest);
    let blend = StateChange::Disable(Capability::Blend);
    let scissor = StateChange::Enable(Capability::ScissorTest);
    if found.depth_test {
        if !found.blend {
            if found.scissor_test {
                assert(restore =~= seq![depth, blend, scissor]);
                assert(restore.drop_last() =~= seq![depth, blend]);
                assert(restore.drop_last().drop_last() =~= seq![depth]);
            } else {
                assert(restore =~= seq![depth, blend]);
                assert(restore.drop_last() =~= seq![depth]);
            }
        } else {
            if found.scissor_test {
                assert(restore =~= seq![depth, scissor]);
                assert(restore.drop_last() =~= seq![depth]);
            } else {
                assert(restore =~= seq![depth]);
            }
        }
        assert(seq![depth].drop_last() =~= Seq::<StateChange>::empty());
    } else {
        if !found.blend {
            if found.scissor_test {
                assert(restore =~= seq![blend, scissor]);
                assert(restore.drop_last() =~= seq![blend]);
            } else {
                assert(restore =~= seq![blend]);
            }
            assert(seq![blend].drop_last() =~= Seq::<StateChange>::empty());
        } else {
            if found.scissor_test {
                assert(restore =~= seq![scissor]);
                assert(seq![scissor].drop_last() =~= Seq::<StateChange>::empty());
            } else {
                assert(restore =~= Seq::<StateChange>::empty());
            }
        }
    }
}

/// After any number of frames, each planned for the switches found, the switches are as
/// they were found.
pub proof fn lemma_frames_restore_state(found: GlFlags, frames: Seq<FrameView>)
    requires
        forall|i: int|
            0 <= i < frames.len() ==> (#[trigger] frames[i]).setup == GlFlags::setup_changes()
                && frames[i].restore == found.restore_changes(),
    ensures
        after_frames(found, frames) == found,
    decreases frames.len(),
{
    if frames.len() > 0 {
        lemma_frames_restore_state(found, frames.drop_last());
        lemma_restore_undoes_setup(found);
    }
}

/// Paints the chrome bar.
pub struct ChromeRenderer {
    atlas: GlyphAtlas,
    config: ChromeConfig,
}

impl View for ChromeRenderer {
    type V = RendererView;

    closed spec fn view(&self) -> RendererView {
        RendererView { config: self.config, atlas: self.atlas@ }
    }
}

impl ChromeRenderer {
    /// A renderer with the settings `config` and the atlas packed from `rasters`.
    pub fn new(rasters: &Vec<RasterGlyph>, config: &ChromeConfig) -> (r: Result<
        ChromeRenderer,
        AtlasError,
    >)
        ensures
            match r {
                Ok(renderer) => {
                    &&& build_error(rasters@) is None
                    &&& renderer@.config == *config
                    &&& renderer@.atlas.packs(rasters@)
                    &&& renderer@.atlas.well_packed()
                },
                Err(e) => build_error(rasters@) == Some(e),
            },
    {
        match GlyphAtlas::build(rasters) {
            Ok(atlas) => Ok(ChromeRenderer { atlas, config: *config }),
            Err(e) => Err(e),
        }
    }

    /// The atlas, whose image is the texture that the glyph quads show.
    pub fn atlas(&self) -> (atlas: &GlyphAtlas)
        ensures
            atlas@ == self@.atlas,
    {
        &self.atlas
    }

    /// A flat rectangle in one colour.
    fn draw_rect(x: i64, y: i64, w: i64, h: i64, color: Rgba) -> (q: Quad)
        ensures
            q == flat_quad(x as int, y as int, w as int, h as int, color),
    {
        Quad { x, y, w, h, u0: 0, v0: 0, u1: 0, v1: 0, textured: false, color }
    }

    /// A rectangle in the text colour that shows a box of the atlas.
    fn draw_textured_rect(
        &self,
        x: i64,
        y: i64,
        w: i64,
        h: i64,
        atlas_x: u32,
        atlas_y: u32,
        atlas_w: u32,
        atlas_h: u32,
    ) -> (q: Quad)
        requires
            atlas_x + atlas_w <= u32::MAX,
            atlas_y + atlas_h <= u32::MAX,
        ensures
            q == (Quad {
                x,
                y,
                w,
                h,
                u0: atlas_x,
                v0: atlas_y,
                u1: (atlas_x + atlas_w) as u32,
                v1: (atlas_y + atlas_h) as u32,
                textured: true,
                color: self@.config.colors.text,
            }),
    {
        Quad {
            x,
            y,
            w,
            h,
            u0: atlas_x,
            v0: atlas_y,
            u1: atlas_x + atlas_w,
            v1: atlas_y + atlas_h,
            textured: true,
            color: self.config.colors.text,
        }
    }

    /// Plans one frame of the bar for a window of the given size: the field shows `url_text`,
    /// has the focus or not, and has its cursor behind `cursor_char_offset` characters;
    /// `enabled` tells which switches of the GPU are found on.
    pub fn draw(
        &self,
        window_width: u32,
        window_height: u32,
        url_text: &str,
        is_focused: bool,
        cursor_char_offset: Option<usize>,
        enabled: GlFlags,
    ) -> (frame: Frame)
        ensures
            frame@ == self@.frame(
                window_width,
                window_height,
                url_text@,
                is_focused,
                cursor_char_offset,
                enabled,
            ),
            forall|i: int| 0 <= i < frame.quads@.len() ==> (#[trigger] frame.quads@[i]).in_range(),
    {
        let ghost view = self@;
        let ghost text = url_text@;
        let w: i64 = (window_width as i64) * SUBPIXELS;
        let ch: i64 = (self.config.height as i64) * SUBPIXELS;
        let margin: i64 = self.config.bar_margin as i64;
        let h_pad: i64 = self.config.bar_h_pad as i64;
        let font_size: i64 = self.config.font_size as i64;

        let mut quads: Vec<Quad> = Vec::new();
        let background = if is_focused {
            self.config.colors.background_focused
        } else {
            self.config.colors.background
        };
        quads.push(Self::draw_rect(0, 0, w, ch, background));

        let bar_w: i64 = w - margin * 2;
        let bar_h: i64 = ch - margin * 2;
        quads.push(Self::draw_rect(margin, margin, bar_w, bar_h, self.config.colors.bar_border));
        quads.push(
            Self::draw_rect(
                margin + SUBPIXELS,
                margin + SUBPIXELS,
                bar_w - 2 * SUBPIXELS,
                bar_h - 2 * SUBPIXELS,
                self.config.colors.bar_background,
            ),
        );
        let ghost fixed = quads@;
        assert(fixed =~= seq![
            view.background_quad(window_width, is_focused),
            view.border_quad(window_width),
            view.field_quad(window_width),
        ]);

        let text_x: i64 = margin + h_pad + self.config.text_left_pad as i64;
        let baseline: i64 = ch / 2 + font_size / 3;
        let max_text_x: i64 = margin + bar_w - h_pad;
        let fallback: i64 = match self.atlas.glyph(' ') {
            Some(space) => space.advance_x as i64,
            None => font_size / 2,
        };

        let mut pen_x: i64 = text_x;
        let mut cursor_x: Option<i64> = None;
        match cursor_char_offset {
            Some(k) => {
                if k == 0 {
                    cursor_x = Some(pen_x);
                }
            },
            None => {},
        }
        let mut walking = true;
        let mut idx: usize = 0;
        let length: usize = url_text.unicode_len();
        let ghost stop: int = 0;
        for c in it: url_text.chars()
            invariant
                it.seq() == text,
                text == url_text@,
                view == self@,
                idx == it.index(),
                length == text.len(),
                text_x == view.text_x(),
                baseline == view.baseline(),
                max_text_x == view.max_text_x(window_width),
                fallback == (if view.atlas.glyphs.contains_key(' ') {
                    view.atlas.glyphs[' '].advance_x as int
                } else {
                    (view.config.font_size / 2) as int
                }),
                walking ==> pen_x == view.pen_at(text, idx as int) && (idx > 0 ==> view.reached(
                    window_width,
                    text,
                    idx - 1,
                )),
                walking ==> 0 <= pen_x <= 0x100_0000_0000,
                forall|j: int| 0 <= j < quads@.len() ==> (#[trigger] quads@[j]).in_range(),
                match cursor_x {
                    Some(x) => 0 <= x <= 0x100_0100_0000,
                    None => true,
                },
                !walking ==> 0 <= stop <= idx && !view.reached(window_width, text, stop),
                quads@ == fixed + view.text_quads(window_width, text, idx as int),
                match cursor_x {
                    Some(x) => view.caret_within(
                        window_width,
                        text,
                        cursor_char_offset,
                        idx as int,
                    ) == Some(x as int),
                    None => view.caret_within(window_width, text, cursor_char_offset, idx as int)
                        is None,
                },
        {
            proof {
                view.lemma_pen_monotone(text, 0, idx as int);
                if !walking {
                    view.lemma_cut_off(window_width, text, stop, idx as int);
                }
            }
            if walking && pen_x > max_text_x {
                walking = false;
                proof {
                    stop = idx as int;
                }
            }
            if walking {
                match self.atlas.glyph(c) {
                    Some(glyph) => {
                        if glyph.width > 0 && glyph.height > 0 {
                            let gx: i64 = pen_x + (glyph.offset_x as i64) * SUBPIXELS;
                            let gy: i64 = baseline - (glyph.offset_y as i64) * SUBPIXELS - (
                            glyph.height as i64) * SUBPIXELS;
                            let quad = self.draw_textured_rect(
                                gx,
                                gy,
                                (glyph.width as i64) * SUBPIXELS,
                                (glyph.height as i64) * SUBPIXELS,
                                glyph.atlas_x,
                                glyph.atlas_y,
                                glyph.width,
                                glyph.height,
                            );
                            assert(quad == view.glyph_quad(pen_x as int, glyph));
                            quads.push(quad);
                        }
                        pen_x = pen_x + glyph.advance_x as i64;
                    },
                    None => {
                        pen_x = pen_x + fallback;
                    },
                }
                match cursor_char_offset {
                    Some(k) => {
                        if k > 0 && k - 1 == idx {
                            cursor_x = Some(pen_x);
                        }
                    },
                    None => {},
                }
            }
            proof {
                assert(text[idx as int] == c);
                assert(fixed + view.text_quads(window_width, text, idx as int + 1) =~= quads@);
            }
            idx = idx + 1;
        }

        if is_focused {
            match cursor_x {
                Some(cx) => {
                    let cursor_h: i64 = font_size + 4 * SUBPIXELS;
                    let slack: i64 = ch - cursor_h;
                    let cursor_y: i64 = if slack >= 0 {
                        slack / 2
                    } else {
                        -((-slack) / 2)
                    };
                    quads.push(
                        Self::draw_rect(
                            cx,
                            cursor_y,
                            CARET_WIDTH * SUBPIXELS,
                            cursor_h,
                            self.config.colors.cursor,
                        ),
                    );
                },
                None => {},
            }
        }
        let frame = Frame {
            viewport_width: window_width,
            viewport_height: window_height,
            atlas_width: self.atlas.width(),
            atlas_height: self.atlas.height(),
            setup: GlFlags::setup(),
            quads,
            restore: enabled.restore(),
        };
        assert(frame@.quads =~= view.quads(window_width, text, is_focused, cursor_char_offset));
        frame
    }
}

/// The four bytes of `word`, the least significant first.
pub open spec fn le_bytes(word: u32) -> Seq<u8> {
    seq![
        (word & 0xff) as u8,
        ((word >> 8) & 0xff) as u8,
        ((word >> 16) & 0xff) as u8,
        ((word >> 24) & 0xff) as u8,
    ]
}

/// The bytes of all the words, each word's least significant byte first.
pub open spec fn packed_le(words: Seq<u32>) -> Seq<u8>
    decreases words.len(),
{
    if words.len() == 0 {
        Seq::empty()
    } else {
        packed_le(words.drop_last()) + le_bytes(words.last())
    }
}

/// Four bytes are packed for each word.
pub proof fn lemma_packed_le_len(words: Seq<u32>)
    ensures
        packed_le(words).len() == 4 * words.len(),
    decreases words.len(),
{
    if words.len() > 0 {
        lemma_packed_le_len(words.drop_last());
    }
}

/// The words as bytes for the vertex buffer, each word's least significant byte first. A
/// word holds the bits of one number of a vertex.
pub fn bytemuck_cast_slice(data: &[u32]) -> (bytes: Vec<u8>)
    ensures
        bytes@ == packed_le(data@),
        bytes@.len() == 4 * data@.len(),
{
    let mut bytes: Vec<u8> = Vec::new();
    let mut i: usize = 0;
    assert(data@.take(0) =~= Seq::<u32>::empty());
    while i < data.len()
        invariant
            i <= data.len(),
            bytes@ == packed_le(data@.take(i as int)),
        decreases data.len() - i,
    {
        let word = data[i];
        assert(word & 0xff <= 0xff && (word >> 8) & 0xff <= 0xff && (word >> 16) & 0xff <= 0xff
            && (word >> 24) & 0xff <= 0xff) by (bit_vector);
        let ghost before = bytes@;
        bytes.push((word & 0xff) as u8);
        bytes.push(((word >> 8) & 0xff) as u8);
        bytes.push(((word >> 16) & 0xff) as u8);
        bytes.push(((word >> 24) & 0xff) as u8);
        proof {
            assert(data@.take(i + 1).drop_last() =~= data@.take(i as int));
            assert(bytes@ =~= before + le_bytes(word));
        }
        i = i + 1;
    }
    proof {
        assert(data@.take(i as int) =~= data@);
        lemma_packed_le_len(data@);
    }
    bytes
}

} // verus!
