//! The camera-relative autotiling renderer.
//!
//! World coordinates are projected around a focal point into a viewport
//! rectangle; every write outside the viewport or outside the output
//! buffer is silently dropped. One frame draws, in this order: every
//! entity with a position and a renderable, the two camera boundary
//! markers, the autotiled wall glyphs of every visible wall cell, and the
//! selection cursor markers when selection mode is active. Later draws
//! overwrite earlier ones, and the whole frame is pinned by `frame_spec`.

use vstd::prelude::*;

use crate::coord::Coord;
use crate::game::{ControlState, Game};
use crate::tilemap::{lemma_index_bound, TileMap};
use crate::world::{Entity, World};

verus! {

use vstd::arithmetic::div_mod::{lemma_fundamental_div_mod, lemma_fundamental_div_mod_converse};

/// Splitting an even-or-odd count: what is left above the half is the
/// rounded-up half.
pub proof fn lemma_half_split(s: int)
    requires
        0 <= s,
    ensures
        s - s / 2 == (s + 1) / 2,
{
    lemma_fundamental_div_mod(s, 2);
    vstd::arithmetic::div_mod::lemma_mod_bound(s, 2);
    let a = s / 2;
    let r = s % 2;
    if r == 0 {
        lemma_fundamental_div_mod_converse(s + 1, 2, a, 1);
    } else {
        lemma_fundamental_div_mod_converse(s + 1, 2, a + 1, 0);
    }
}

/// One character cell of the output: a glyph, a foreground color and a
/// background color.
#[derive(Clone, Copy, Debug)]
pub struct Cell {
    pub glyph: char,
    pub fg: [u8; 3],
    pub bg: [u8; 3],
}

/// The blank cell the buffer starts from.
pub open spec fn blank_cell() -> Cell {
    Cell { glyph: ' ', fg: [255u8, 255u8, 255u8], bg: [0u8, 0u8, 0u8] }
}

/// The screen-space rectangle a viewport draws into.
#[derive(Clone, Copy, PartialEq, Eq, Structural, Debug)]
pub struct Rect {
    pub x: u16,
    pub y: u16,
    pub width: u16,
    pub height: u16,
}

/// A row-major rectangular character-cell buffer.
pub struct ScreenBuffer {
    pub width: u16,
    pub height: u16,
    pub cells: Vec<Cell>,
}

/// Writes one glyph with a foreground color at buffer cell `(x, y)`,
/// keeping the background; a write outside the buffer changes nothing.
pub open spec fn put(s: Seq<Cell>, w: int, h: int, x: int, y: int, glyph: char, fg: [u8; 3]) -> Seq<
    Cell,
> {
    if 0 <= x < w && 0 <= y < h && s.len() == w * h {
        s.update(x + w * y, Cell { glyph, fg, bg: s[x + w * y].bg })
    } else {
        s
    }
}

impl ScreenBuffer {
    pub open spec fn wf(self) -> bool {
        self.cells@.len() == self.width * self.height
    }

    pub open spec fn cell_at(self, x: int, y: int) -> Cell {
        self.cells@[x + self.width * y]
    }

    /// A `width x height` buffer of blank cells.
    pub fn new(width: u16, height: u16) -> (b: ScreenBuffer)
        ensures
            b.wf(),
            b.width == width,
            b.height == height,
            forall|x: int, y: int|
                0 <= x < width && 0 <= y < height ==> #[trigger] b.cell_at(x, y) == blank_cell(),
    {
        proof {
            assert((width as int) * (height as int) <= 0xffff * 0xffff) by (nonlinear_arith)
                requires
                    width <= 0xffff,
                    height <= 0xffff,
            ;
        }
        let total: usize = (width as usize) * (height as usize);
        let mut cells: Vec<Cell> = Vec::new();
        let mut i: usize = 0;
        while i < total
            invariant
                i <= total,
                cells@.len() == i,
                forall|j: int| 0 <= j < i ==> #[trigger] cells@[j] == blank_cell(),
            decreases total - i,
        {
            cells.push(Cell { glyph: ' ', fg: [255, 255, 255], bg: [0, 0, 0] });
            i = i + 1;
        }
        let b = ScreenBuffer { width, height, cells };
        proof {
            assert forall|x: int, y: int|
                0 <= x < width && 0 <= y < height implies #[trigger] b.cell_at(x, y)
                == blank_cell() by {
                lemma_index_bound(width as int, height as int, x, y);
            }
        }
        b
    }

    /// Writes one glyph and foreground at `(x, y)`, silently dropping a
    /// write outside the buffer.
    pub fn set(&mut self, x: u16, y: u16, glyph: char, fg: [u8; 3])
        requires
            old(self).wf(),
        ensures
            final(self).wf(),
            final(self).width == old(self).width,
            final(self).height == old(self).height,
            final(self).cells@ == put(
                old(self).cells@,
                old(self).width as int,
                old(self).height as int,
                x as int,
                y as int,
                glyph,
                fg,
            ),
    {
        if x < self.width && y < self.height {
            proof {
                lemma_index_bound(self.width as int, self.height as int, x as int, y as int);
                assert((self.width as int) * (y as int) <= 0xffff * 0xffff) by (nonlinear_arith)
                    requires
                        self.width <= 0xffff,
                        y <= 0xffff,
                ;
            }
            let idx: usize = (x as usize) + (self.width as usize) * (y as usize);
            let bg = self.cells[idx].bg;
            self.cells.set(idx, Cell { glyph, fg, bg });
        }
    }
}

/// A focal world position plus a viewport size in cells.
#[derive(Clone, Copy, PartialEq, Eq, Structural, Debug)]
pub struct Camera {
    pub pos: Coord,
    pub size: Coord,
}

/// The corner coordinates the camera derives are representable: the
/// machine bound for placing a camera at `pos` with viewport `size`.
pub open spec fn camera_fits(pos: Coord, size: Coord) -> bool {
    &&& i32::MIN <= pos.x - size.x / 2
    &&& i32::MIN <= pos.y - size.y / 2
    &&& i32::MIN <= pos.x + (size.x + 1) / 2 - 1 <= i32::MAX
    &&& i32::MIN <= pos.y + (size.y + 1) / 2 - 1 <= i32::MAX
}

impl Camera {
    pub open spec fn wf(self) -> bool {
        &&& 0 <= self.size.x <= u16::MAX
        &&& 0 <= self.size.y <= u16::MAX
        &&& camera_fits(self.pos, self.size)
    }

    pub open spec fn top_left_spec(self) -> Coord {
        Coord { x: (self.pos.x - self.size.x / 2) as i32, y: (self.pos.y - self.size.y / 2) as i32 }
    }

    pub open spec fn bottom_right_spec(self) -> Coord {
        Coord {
            x: (self.pos.x + (self.size.x + 1) / 2 - 1) as i32,
            y: (self.pos.y + (self.size.y + 1) / 2 - 1) as i32,
        }
    }

    /// The world coordinate of the viewport's top-left cell:
    /// `pos - size / 2` per axis.
    pub fn top_left(&self) -> (r: Coord)
        requires
            self.wf(),
        ensures
            r == self.top_left_spec(),
    {
        Coord { x: self.pos.x - self.size.x / 2, y: self.pos.y - self.size.y / 2 }
    }

    /// The world coordinate of the viewport's bottom-right cell:
    /// `pos + (size + 1) / 2 - 1` per axis (asymmetric when a size is
    /// even).
    pub fn bottom_right(&self) -> (r: Coord)
        requires
            self.wf(),
        ensures
            r == self.bottom_right_spec(),
    {
        let brx: i64 = self.pos.x as i64 + ((self.size.x + 1) / 2) as i64 - 1;
        let bry: i64 = self.pos.y as i64 + ((self.size.y + 1) / 2) as i64 - 1;
        Coord { x: brx as i32, y: bry as i32 }
    }
}

/// Whether `p` falls inside the camera's viewport, and where: the
/// viewport-relative cell is `p - pos + size / 2` per axis.
pub open spec fn visible(cam: Camera, p: Coord) -> bool {
    &&& 0 <= p.x - cam.pos.x + cam.size.x / 2 < cam.size.x
    &&& 0 <= p.y - cam.pos.y + cam.size.y / 2 < cam.size.y
}

pub open spec fn screen_x(cam: Camera, p: Coord) -> int {
    p.x - cam.pos.x + cam.size.x / 2
}

pub open spec fn screen_y(cam: Camera, p: Coord) -> int {
    p.y - cam.pos.y + cam.size.y / 2
}

/// The box-drawing glyph of a wall cell, keyed by which of its four
/// axis-adjacent neighbors are walls too: full connectivity is an
/// intersection, three neighbors a tee away from the missing side, two
/// opposite neighbors a straight segment, two adjacent neighbors a
/// corner, one horizontal neighbor a horizontal segment, one vertical
/// neighbor (or none vertically) a vertical segment, and an isolated wall
/// falls back to `#`.
pub open spec fn wall_glyph_spec(left: bool, right: bool, up: bool, down: bool) -> char {
    match (left, right, up, down) {
        (true, true, true, true) => '╬',
        (true, true, true, false) => '╩',
        (true, true, false, true) => '╦',
        (true, true, false, false) => '═',
        (true, false, true, true) => '╣',
        (true, false, true, false) => '╝',
        (true, false, false, true) => '╗',
        (true, false, false, false) => '═',
        (false, true, true, true) => '╠',
        (false, true, true, false) => '╚',
        (false, true, false, true) => '╔',
        (false, true, false, false) => '═',
        (false, false, true, true) => '║',
        (false, false, true, false) => '║',
        (false, false, false, true) => '║',
        (false, false, false, false) => '#',
    }
}

/// Resolves the autotile glyph for a neighbor combination; agrees with
/// `wall_glyph_spec` on all sixteen combinations.
pub fn wall_glyph(left: bool, right: bool, up: bool, down: bool) -> (c: char)
    ensures
        c == wall_glyph_spec(left, right, up, down),
{
    match (left, right, up, down) {
        (true, true, true, true) => '╬',
        (true, true, true, false) => '╩',
        (true, true, false, true) => '╦',
        (true, true, false, false) => '═',
        (true, false, true, true) => '╣',
        (true, false, true, false) => '╝',
        (true, false, false, true) => '╗',
        (true, false, false, false) => '═',
        (false, true, true, true) => '╠',
        (false, true, true, false) => '╚',
        (false, true, false, true) => '╔',
        (false, true, false, false) => '═',
        (false, false, true, true) => '║',
        (false, false, true, false) => '║',
        (false, false, false, true) => '║',
        (false, false, false, false) => '#',
    }
}

/// Whether the mathematical world point `(x, y)` is a wall tile: it must
/// be representable, and its cell in the index must be occupied.
pub open spec fn wall_at(m: TileMap, x: int, y: int) -> bool {
    Coord::representable(x, y) && m.lookup_spec(Coord { x: x as i32, y: y as i32 }).len() > 0
}

/// A camera bound to the screen-space rectangle it draws into.
#[derive(Clone, Copy, PartialEq, Eq, Structural, Debug)]
pub struct RenderContext {
    pub cam: Camera,
    pub area: Rect,
}

/// Writes a glyph at the buffer cell that the world coordinate `p` maps
/// to, or changes nothing when `p` is not visible.
pub open spec fn put_world(
    ctx: RenderContext,
    s: Seq<Cell>,
    bw: int,
    bh: int,
    p: Coord,
    glyph: char,
    fg: [u8; 3],
) -> Seq<Cell> {
    if visible(ctx.cam, p) {
        put(
            s,
            bw,
            bh,
            ctx.area.x + screen_x(ctx.cam, p),
            ctx.area.y + screen_y(ctx.cam, p),
            glyph,
            fg,
        )
    } else {
        s
    }
}

/// Pass one: entities `0 .. n` in identifier order; each with both a
/// position and a renderable is drawn with its glyph and color.
pub open spec fn entities_pass(
    ctx: RenderContext,
    w: World,
    s: Seq<Cell>,
    bw: int,
    bh: int,
    n: int,
) -> Seq<Cell>
    decreases n,
{
    if n <= 0 {
        s
    } else {
        let prev = entities_pass(ctx, w, s, bw, bh, n - 1);
        let e = Entity((n - 1) as usize);
        match (w.position_of(e), w.renderable_of(e)) {
            (Some(p), Some(r)) => put_world(ctx, prev, bw, bh, p.0, r.char, r.color),
            _ => prev,
        }
    }
}

/// Pass two: the camera boundary markers at the derived top-left and
/// bottom-right world corners.
pub open spec fn markers_pass(ctx: RenderContext, s: Seq<Cell>, bw: int, bh: int) -> Seq<Cell> {
    put_world(
        ctx,
        put_world(ctx, s, bw, bh, ctx.cam.top_left_spec(), '#', [255u8, 255u8, 255u8]),
        bw,
        bh,
        ctx.cam.bottom_right_spec(),
        '#',
        [255u8, 255u8, 255u8],
    )
}

/// The world point of the viewport cell `(sx, sy)`.
pub open spec fn world_of_screen(ctx: RenderContext, sx: int, sy: int) -> (int, int) {
    (ctx.cam.pos.x - ctx.cam.size.x / 2 + sx, ctx.cam.pos.y - ctx.cam.size.y / 2 + sy)
}

/// One autotile write: if the viewport cell `(sx, sy)` sits on a wall
/// tile, its connectivity glyph replaces the cell.
pub open spec fn wall_write(
    ctx: RenderContext,
    m: TileMap,
    s: Seq<Cell>,
    bw: int,
    bh: int,
    sx: int,
    sy: int,
) -> Seq<Cell> {
    let (wx, wy) = world_of_screen(ctx, sx, sy);
    if Coord::representable(wx, wy) && wall_at(m, wx, wy) {
        put_world(
            ctx,
            s,
            bw,
            bh,
            Coord { x: wx as i32, y: wy as i32 },
            wall_glyph_spec(
                wall_at(m, wx - 1, wy),
                wall_at(m, wx + 1, wy),
                wall_at(m, wx, wy - 1),
                wall_at(m, wx, wy + 1),
            ),
            [255u8, 255u8, 255u8],
        )
    } else {
        s
    }
}

/// Pass three, one viewport row: autotile writes for cells `0 .. sx_n` of
/// row `sy`, left to right.
pub open spec fn walls_row(
    ctx: RenderContext,
    m: TileMap,
    s: Seq<Cell>,
    bw: int,
    bh: int,
    sy: int,
    sx_n: int,
) -> Seq<Cell>
    decreases sx_n,
{
    if sx_n <= 0 {
        s
    } else {
        wall_write(ctx, m, walls_row(ctx, m, s, bw, bh, sy, sx_n - 1), bw, bh, sx_n - 1, sy)
    }
}

/// Pass three: autotile writes for viewport rows `0 .. sy_n`, top to
/// bottom.
pub open spec fn walls_pass(
    ctx: RenderContext,
    m: TileMap,
    s: Seq<Cell>,
    bw: int,
    bh: int,
    sy_n: int,
) -> Seq<Cell>
    decreases sy_n,
{
    if sy_n <= 0 {
        s
    } else {
        walls_row(
            ctx,
            m,
            walls_pass(ctx, m, s, bw, bh, sy_n - 1),
            bw,
            bh,
            sy_n - 1,
            ctx.cam.size.x as int,
        )
    }
}

/// Pass four: in selection mode, `<` and `>` flank the cursor (each
/// marker dropped if its coordinate is unrepresentable).
pub open spec fn selection_pass(
    ctx: RenderContext,
    state: ControlState,
    s: Seq<Cell>,
    bw: int,
    bh: int,
) -> Seq<Cell> {
    match state {
        ControlState::Player => s,
        ControlState::Selection(c) => {
            let s1 = if Coord::representable(c.x + 1, c.y as int) {
                put_world(
                    ctx,
                    s,
                    bw,
                    bh,
                    Coord { x: (c.x + 1) as i32, y: c.y },
                    '<',
                    [255u8, 196u8, 0u8],
                )
            } else {
                s
            };
            if Coord::representable(c.x - 1, c.y as int) {
                put_world(
                    ctx,
                    s1,
                    bw,
                    bh,
                    Coord { x: (c.x - 1) as i32, y: c.y },
                    '>',
                    [255u8, 196u8, 0u8],
                )
            } else {
                s1
            }
        },
    }
}

/// A whole frame: entities, then boundary markers, then autotiled walls,
/// then the selection cursor markers.
pub open spec fn frame_spec(
    ctx: RenderContext,
    g: Game,
    s: Seq<Cell>,
    bw: int,
    bh: int,
) -> Seq<Cell> {
    selection_pass(
        ctx,
        g.state,
        walls_pass(
            ctx,
            g.map,
            markers_pass(ctx, entities_pass(ctx, g.world, s, bw, bh, g.world.n() as int), bw, bh),
            bw,
            bh,
            ctx.cam.size.y as int,
        ),
        bw,
        bh,
    )
}

impl RenderContext {
    pub open spec fn wf(self) -> bool {
        &&& self.cam.wf()
        &&& self.cam.size.x == self.area.width
        &&& self.cam.size.y == self.area.height
        &&& self.area.x + self.area.width <= u16::MAX
        &&& self.area.y + self.area.height <= u16::MAX
    }

    /// Binds a camera to `area`, focused on the player's current
    /// position. `None` when the player has no position, or when the
    /// camera's corner coordinates would not be representable there.
    pub fn new(area: Rect, state: &Game) -> (r: Option<RenderContext>)
        requires
            area.x + area.width <= u16::MAX,
            area.y + area.height <= u16::MAX,
        ensures
            match state.world.position_of(state.player) {
                None => r is None,
                Some(p) => {
                    let size = Coord { x: area.width as i32, y: area.height as i32 };
                    if camera_fits(p.0, size) {
                        r == Some(RenderContext { cam: Camera { pos: p.0, size }, area })
                            && (r matches Some(ctx) && ctx.wf())
                    } else {
                        r is None
                    }
                },
            },
    {
        let p = match state.player_pos() {
            Some(p) => p,
            None => {
                return None;
            },
        };
        let size = Coord { x: area.width as i32, y: area.height as i32 };
        let tlx: i64 = p.x as i64 - (size.x / 2) as i64;
        let tly: i64 = p.y as i64 - (size.y / 2) as i64;
        let brx: i64 = p.x as i64 + ((size.x + 1) / 2) as i64 - 1;
        let bry: i64 = p.y as i64 + ((size.y + 1) / 2) as i64 - 1;
        let min: i64 = i32::MIN as i64;
        let max: i64 = i32::MAX as i64;
        if min <= tlx && min <= tly && min <= brx && brx <= max && min <= bry && bry <= max {
            Some(RenderContext { cam: Camera { pos: p, size }, area })
        } else {
            None
        }
    }

    /// Maps a world coordinate to the absolute screen cell it occupies,
    /// or `None` when it is outside the viewport. Total: no input
    /// overflows or panics.
    pub fn screen_position(&self, p: Coord) -> (r: Option<(u16, u16)>)
        requires
            self.wf(),
        ensures
            visible(self.cam, p) ==> r == Some(
                ((self.area.x + screen_x(self.cam, p)) as u16, (self.area.y + screen_y(
                    self.cam,
                    p,
                )) as u16),
            ),
            !visible(self.cam, p) ==> r is None,
    {
        let sx: i64 = p.x as i64 - self.cam.pos.x as i64 + (self.cam.size.x / 2) as i64;
        let sy: i64 = p.y as i64 - self.cam.pos.y as i64 + (self.cam.size.y / 2) as i64;
        if 0 <= sx && sx < self.cam.size.x as i64 && 0 <= sy && sy < self.cam.size.y as i64 {
            Some((self.area.x + sx as u16, self.area.y + sy as u16))
        } else {
            None
        }
    }

    /// Draws one glyph at the screen cell of the world coordinate `p`;
    /// a write outside the viewport or the buffer changes nothing.
    pub fn set_char(&self, buffer: &mut ScreenBuffer, p: Coord, glyph: char, fg: [u8; 3])
        requires
            self.wf(),
            old(buffer).wf(),
        ensures
            final(buffer).wf(),
            final(buffer).width == old(buffer).width,
            final(buffer).height == old(buffer).height,
            final(buffer).cells@ == put_world(
                *self,
                old(buffer).cells@,
                old(buffer).width as int,
                old(buffer).height as int,
                p,
                glyph,
                fg,
            ),
    {
        match self.screen_position(p) {
            Some((x, y)) => {
                buffer.set(x, y, glyph, fg);
            },
            None => {},
        }
    }

    /// Probes whether the neighbor of `p` displaced by `(dx, dy)` is a
    /// wall tile; a displacement leaving the coordinate space is no wall.
    fn wall_probe(m: &TileMap, p: Coord, dx: i32, dy: i32) -> (r: bool)
        requires
            m.wf(),
        ensures
            r == wall_at(*m, p.x + dx, p.y + dy),
    {
        let nx: i64 = p.x as i64 + dx as i64;
        let ny: i64 = p.y as i64 + dy as i64;
        let min: i64 = i32::MIN as i64;
        let max: i64 = i32::MAX as i64;
        if min <= nx && nx <= max && min <= ny && ny <= max {
            m.is_wall(Coord { x: nx as i32, y: ny as i32 })
        } else {
            false
        }
    }

    /// Draws one frame of `state` into `buffer`; the result is exactly
    /// `frame_spec` of the buffer it started from.
    pub fn render(&self, state: &Game, buffer: &mut ScreenBuffer)
        requires
            self.wf(),
            state.wf(),
            old(buffer).wf(),
        ensures
            final(buffer).wf(),
            final(buffer).width == old(buffer).width,
            final(buffer).height == old(buffer).height,
            final(buffer).cells@ == frame_spec(
                *self,
                *state,
                old(buffer).cells@,
                old(buffer).width as int,
                old(buffer).height as int,
            ),
    {
        let ghost s0 = buffer.cells@;
        let ghost bw = buffer.width as int;
        let ghost bh = buffer.height as int;
        // entities
        let n = state.world.num_entities();
        let mut id: usize = 0;
        while id < n
            invariant
                self.wf(),
                state.wf(),
                buffer.wf(),
                buffer.width == bw,
                buffer.height == bh,
                id <= n,
                n == state.world.n(),
                buffer.cells@ == entities_pass(*self, state.world, s0, bw, bh, id as int),
            decreases n - id,
        {
            let e = Entity(id);
            match (state.world.position(e), state.world.renderable(e)) {
                (Some(p), Some(r)) => {
                    self.set_char(buffer, p.0, r.char, r.color);
                },
                _ => {},
            }
            id = id + 1;
        }
        // boundary markers
        let ghost s1 = buffer.cells@;
        self.set_char(buffer, self.cam.top_left(), '#', [255, 255, 255]);
        self.set_char(buffer, self.cam.bottom_right(), '#', [255, 255, 255]);
        assert(buffer.cells@ == markers_pass(*self, s1, bw, bh));
        // autotiled walls
        let ghost s2 = buffer.cells@;
        let tl = self.cam.top_left();
        let mut sy: i32 = 0;
        while sy < self.cam.size.y
            invariant
                self.wf(),
                state.wf(),
                buffer.wf(),
                buffer.width == bw,
                buffer.height == bh,
                0 <= sy <= self.cam.size.y,
                tl == self.cam.top_left_spec(),
                buffer.cells@ == walls_pass(*self, state.map, s2, bw, bh, sy as int),
            decreases self.cam.size.y - sy,
        {
            let ghost srow = buffer.cells@;
            let mut sx: i32 = 0;
            while sx < self.cam.size.x
                invariant
                    self.wf(),
                    state.wf(),
                    buffer.wf(),
                    buffer.width == bw,
                    buffer.height == bh,
                    0 <= sy < self.cam.size.y,
                    0 <= sx <= self.cam.size.x,
                    tl == self.cam.top_left_spec(),
                    buffer.cells@ == walls_row(*self, state.map, srow, bw, bh, sy as int, sx as int),
                decreases self.cam.size.x - sx,
            {
                proof {
                    lemma_half_split(self.cam.size.x as int);
                    lemma_half_split(self.cam.size.y as int);
                }
                let wx: i32 = tl.x + sx;
                let wy: i32 = tl.y + sy;
                let wc = Coord { x: wx, y: wy };
                if state.map.is_wall(wc) {
                    let left = Self::wall_probe(&state.map, wc, -1, 0);
                    let right = Self::wall_probe(&state.map, wc, 1, 0);
                    let up = Self::wall_probe(&state.map, wc, 0, -1);
                    let down = Self::wall_probe(&state.map, wc, 0, 1);
                    let glyph = wall_glyph(left, right, up, down);
                    self.set_char(buffer, wc, glyph, [255, 255, 255]);
                }
                sx = sx + 1;
            }
            sy = sy + 1;
        }
        // selection cursor markers
        let ghost s3 = buffer.cells@;
        match state.state {
            ControlState::Player => {},
            ControlState::Selection(c) => {
                match c.checked_add(Coord { x: 1, y: 0 }) {
                    Some(p) => {
                        self.set_char(buffer, p, '<', [255, 196, 0]);
                    },
                    None => {},
                }
                match c.checked_sub(Coord { x: 1, y: 0 }) {
                    Some(p) => {
                        self.set_char(buffer, p, '>', [255, 196, 0]);
                    },
                    None => {},
                }
            },
        }
        assert(buffer.cells@ == selection_pass(*self, state.state, s3, bw, bh));
    }
}

} // verus!
