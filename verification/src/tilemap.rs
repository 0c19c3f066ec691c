//! The spatial world index: a fixed `width x height` grid of occupant lists.
//!
//! Storage is a dense row-major array of cells addressed by unsigned storage
//! coordinates; a world-to-storage offset of `(width / 2, height / 2)` lets
//! signed world coordinates centered near the origin address the grid. A
//! lookup outside the covered rectangle returns an empty list and never
//! panics, for any `i32` input.

use vstd::prelude::*;

use crate::coord::Coord;
use crate::world::{BlocksMoving, Entity, Name, Position, Renderable, World};

verus! {

use vstd::arithmetic::div_mod::{
    lemma_div_pos_is_pos,
    lemma_fundamental_div_mod,
    lemma_fundamental_div_mod_converse,
    lemma_mod_bound,
};
use vstd::arithmetic::mul::lemma_mul_inequality;

/// A storage index `x + w * y` stays inside the `w * h` cell array.
pub proof fn lemma_index_bound(w: int, h: int, x: int, y: int)
    requires
        0 <= x < w,
        0 <= y < h,
    ensures
        0 <= x + w * y < w * h,
{
    assert(0 <= x + w * y < w * h) by (nonlinear_arith)
        requires
            0 <= x < w,
            0 <= y < h,
    ;
}

/// Distinct storage coordinates have distinct storage indices.
pub proof fn lemma_index_injective(w: int, x1: int, y1: int, x2: int, y2: int)
    requires
        0 <= x1 < w,
        0 <= x2 < w,
        !(x1 == x2 && y1 == y2),
    ensures
        x1 + w * y1 != x2 + w * y2,
{
    assert(x1 + w * y1 != x2 + w * y2) by (nonlinear_arith)
        requires
            0 <= x1 < w,
            0 <= x2 < w,
            !(x1 == x2 && y1 == y2),
    ;
}

/// Whether `(x, y)` lies on the hollow square perimeter of side `size`
/// whose top-left corner is `(cx, cy)` (all in storage coordinates).
pub open spec fn on_perimeter(x: int, y: int, cx: int, cy: int, size: int) -> bool {
    &&& cx <= x < cx + size
    &&& cy <= y < cy + size
    &&& (x == cx || x == cx + size - 1 || y == cy || y == cy + size - 1)
}

/// The part of a perimeter placed after `i` offsets of the placement loop,
/// plus the first `s` of the four edge cells of offset `i` itself.
pub open spec fn partial_step(x: int, y: int, cx: int, cy: int, size: int, i: int, s: int) -> bool {
    ||| (y == cy && cx <= x < cx + i)
    ||| (x == cx && cy <= y < cy + i)
    ||| (y == cy + size - 1 && cx <= x < cx + i)
    ||| (x == cx + size - 1 && cy <= y < cy + i)
    ||| (s >= 1 && y == cy && x == cx + i)
    ||| (s >= 2 && x == cx && y == cy + i)
    ||| (s >= 3 && y == cy + size - 1 && x == cx + i)
    ||| (s >= 4 && x == cx + size - 1 && y == cy + i)
}

/// Entities of `w0` still exist in `w1`, with the same components.
pub open spec fn preserves_entities(w0: World, w1: World) -> bool {
    &&& w0.n() <= w1.n()
    &&& forall|e: Entity| e.0 < w0.n() ==> {
        &&& #[trigger] w1.position_of(e) == w0.position_of(e)
        &&& w1.renderable_of(e) == w0.renderable_of(e)
        &&& w1.name_of(e) == w0.name_of(e)
        &&& w1.blocks(e) == w0.blocks(e)
    }
}

pub proof fn lemma_preserves_trans(w0: World, w1: World, w2: World)
    requires
        preserves_entities(w0, w1),
        preserves_entities(w1, w2),
    ensures
        preserves_entities(w0, w2),
{
    assert forall|e: Entity| e.0 < w0.n() implies {
        &&& #[trigger] w2.position_of(e) == w0.position_of(e)
        &&& w2.renderable_of(e) == w0.renderable_of(e)
        &&& w2.name_of(e) == w0.name_of(e)
        &&& w2.blocks(e) == w0.blocks(e)
    } by {
        assert(w1.position_of(e) == w0.position_of(e));
        assert(w2.position_of(e) == w1.position_of(e));
    }
}

/// What generation guarantees of each wall occupant: a position equal to
/// the cell it occupies, the movement-blocking tag, the wall glyph in
/// white, and the wall label.
pub open spec fn wall_props(w: World, e: Entity, pos: Coord) -> bool {
    &&& w.position_of(e) == Some(Position(pos))
    &&& w.blocks(e)
    &&& (w.renderable_of(e) matches Some(r) && r.char == '#' && r.color == [255u8, 255u8, 255u8])
    &&& (w.name_of(e) matches Some(n) && n.0@ == "Wall"@)
}

pub proof fn lemma_wall_props_preserved(w1: World, w2: World, e: Entity, pos: Coord)
    requires
        wall_props(w1, e, pos),
        preserves_entities(w1, w2),
    ensures
        wall_props(w2, e, pos),
{
    w1.lemma_position_some_valid(e);
    assert(w2.position_of(e) == w1.position_of(e));
}

/// `e` is a registered wall occupant of `m`: it is the sole occupant of
/// the cell matching its own position, and it carries the wall
/// components. Generation spawns no entity that is not registered, so
/// nothing the renderer draws can disagree with the index.
pub open spec fn registered_wall(m: TileMap, w: World, e: Entity) -> bool {
    exists|p: Coord| #[trigger] wall_props(w, e, p) && m.lookup_spec(p) == seq![e]
}

/// Registration survives any step that preserves entities and leaves
/// every occupied cell untouched.
pub proof fn lemma_registered_preserved(m1: TileMap, w1: World, m2: TileMap, w2: World, e: Entity)
    requires
        registered_wall(m1, w1, e),
        preserves_entities(w1, w2),
        m2.width_spec() == m1.width_spec(),
        m2.height_spec() == m1.height_spec(),
        forall|x: int, y: int|
            0 <= x < m1.width_spec() && 0 <= y < m1.height_spec() && m1.cell(x, y).len() > 0
                ==> #[trigger] m2.cell(x, y) == m1.cell(x, y),
    ensures
        registered_wall(m2, w2, e),
{
    let p = choose|p: Coord| #[trigger] wall_props(w1, e, p) && m1.lookup_spec(p) == seq![e];
    lemma_wall_props_preserved(w1, w2, e, p);
    assert(m1.lookup_spec(p).len() == 1);
    assert(m1.in_bounds(p));
    assert(m2.cell(p.x + m1.off_x(), p.y + m1.off_y()) == m1.cell(
        p.x + m1.off_x(),
        p.y + m1.off_y(),
    ));
    assert(wall_props(w2, e, p) && m2.lookup_spec(p) == seq![e]);
}

/// `m` and `w` extend the snapshot `(m0, w0)` by exactly one wall occupant
/// in each empty in-range cell selected by `partial_step`; every entity
/// spawned since the snapshot is registered.
pub open spec fn gen_extends(
    m0: TileMap,
    w0: World,
    m: TileMap,
    w: World,
    cx: int,
    cy: int,
    size: int,
    i: int,
    s: int,
) -> bool {
    &&& m.wf()
    &&& w.wf()
    &&& m.width_spec() == m0.width_spec()
    &&& m.height_spec() == m0.height_spec()
    &&& preserves_entities(w0, w)
    &&& forall|e: Entity| w0.n() <= e.0 < w.n() ==> registered_wall(m, w, e)
    &&& forall|x: int, y: int|
        0 <= x < m0.width_spec() && 0 <= y < m0.height_spec() ==> (if m0.cell(x, y).len() > 0
            || !partial_step(x, y, cx, cy, size, i, s) {
            #[trigger] m.cell(x, y) == m0.cell(x, y)
        } else {
            m.cell(x, y).len() == 1 && wall_props(w, m.cell(x, y)[0], m0.world_at(x, y))
        })
}

/// The random decision for the lattice cell in column `col` of row `row`;
/// a row or column past the end of the table means "skip".
pub open spec fn decision_at(d: Seq<Seq<bool>>, col: int, row: int) -> bool {
    &&& 0 <= row < d.len()
    &&& 0 <= col < d[row].len()
    &&& d[row][col]
}

/// Whether the lattice cell with storage origin `(cx, cy)` received a
/// square: origins sit on multiples of the stride `2 * size` inside the
/// grid, and the decision table row `cy / (2*size)`, column `cx / (2*size)`
/// says "place".
pub open spec fn lattice_chosen(
    width: int,
    height: int,
    size: int,
    d: Seq<Seq<bool>>,
    cx: int,
    cy: int,
) -> bool {
    &&& 0 <= cx < width && cx % (2 * size) == 0
    &&& 0 <= cy < height && cy % (2 * size) == 0
    &&& decision_at(d, cx / (2 * size), cy / (2 * size))
}

/// Whether generation leaves a wall occupant in storage cell `(x, y)`: the
/// cell lies on the perimeter of the square of its own lattice cell, and
/// that lattice cell was chosen. Placement is a pure function of the grid
/// dimensions, the structure size and the decision table.
pub open spec fn wall_covered(
    width: int,
    height: int,
    size: int,
    d: Seq<Seq<bool>>,
    x: int,
    y: int,
) -> bool {
    let cx = (x / (2 * size)) * (2 * size);
    let cy = (y / (2 * size)) * (2 * size);
    &&& lattice_chosen(width, height, size, d, cx, cy)
    &&& on_perimeter(x, y, cx, cy, size)
}

/// `wall_covered` restricted to lattice cells strictly before column `col`
/// of row `row` in row-major generation order.
pub open spec fn covered_before(
    width: int,
    height: int,
    size: int,
    d: Seq<Seq<bool>>,
    x: int,
    y: int,
    col: int,
    row: int,
) -> bool {
    &&& wall_covered(width, height, size, d, x, y)
    &&& (y / (2 * size) < row || (y / (2 * size) == row && x / (2 * size) < col))
}

/// Generation is reproducible: two indexes whose occupancy matches the
/// same dimensions, structure size and decision table agree on the
/// occupancy of every cell.
pub proof fn lemma_generation_deterministic(
    m1: TileMap,
    m2: TileMap,
    width: int,
    height: int,
    size: int,
    d: Seq<Seq<bool>>,
)
    requires
        grid_occupancy_matches(m1, width, height, size, d),
        grid_occupancy_matches(m2, width, height, size, d),
    ensures
        forall|x: int, y: int|
            0 <= x < width && 0 <= y < height ==> (#[trigger] m1.cell(x, y)).len() == m2.cell(
                x,
                y,
            ).len(),
{
    assert forall|x: int, y: int|
        0 <= x < width && 0 <= y < height implies (#[trigger] m1.cell(x, y)).len() == m2.cell(
        x,
        y,
    ).len() by {
    }
}

/// Locates the lattice cell of a point: `v` lies in the stride-`s` block
/// of index `c` exactly when `v / s == c`.
pub proof fn lemma_lattice_of_point(v: int, s: int, c: int)
    requires
        0 <= v,
        1 <= s,
    ensures
        0 <= v / s,
        (v / s) * s <= v < (v / s) * s + s,
        (c * s <= v < c * s + s) <==> v / s == c,
{
    lemma_fundamental_div_mod(v, s);
    lemma_mod_bound(v, s);
    lemma_div_pos_is_pos(v, s);
    assert((v / s) * s == s * (v / s)) by (nonlinear_arith);
    if c * s <= v && v < c * s + s {
        lemma_fundamental_div_mod_converse(v, s, c, v - c * s);
    }
}

/// A point below the `c`-th stride boundary lies in an earlier block.
pub proof fn lemma_point_before(v: int, s: int, c: int)
    requires
        0 <= v,
        1 <= s,
        0 <= c,
        v < c * s,
    ensures
        v / s < c,
{
    lemma_lattice_of_point(v, s, c);
    if v / s >= c {
        lemma_mul_inequality(c, v / s, s);
    }
}

/// The occupancy a decision table `d` dictates: each in-range storage cell
/// holds one occupant when `wall_covered` selects it and none otherwise.
pub open spec fn grid_occupancy_matches(
    m: TileMap,
    width: int,
    height: int,
    size: int,
    d: Seq<Seq<bool>>,
) -> bool {
    forall|x: int, y: int|
        0 <= x < width && 0 <= y < height ==> (if wall_covered(width, height, size, d, x, y) {
            (#[trigger] m.cell(x, y)).len() == 1
        } else {
            m.cell(x, y).len() == 0
        })
}

/// The spatial world index.
pub struct TileMap {
    pub width: usize,
    pub height: usize,
    tiles: Vec<Vec<Entity>>,
    offset: Coord,
}

impl TileMap {
    pub closed spec fn width_spec(self) -> usize {
        self.width
    }

    pub closed spec fn height_spec(self) -> usize {
        self.height
    }

    /// World-to-storage offset along x: the grid covers world x coordinates
    /// `[-off_x(), width - off_x())`.
    pub open spec fn off_x(self) -> int {
        self.width_spec() as int / 2
    }

    /// World-to-storage offset along y.
    pub open spec fn off_y(self) -> int {
        self.height_spec() as int / 2
    }

    pub closed spec fn wf(self) -> bool {
        &&& self.tiles@.len() == self.width * self.height
        &&& self.offset.x == self.off_x()
        &&& self.offset.y == self.off_y()
        &&& self.width <= i32::MAX
        &&& self.height <= i32::MAX
        &&& self.width * self.height <= usize::MAX
    }

    /// Whether a world coordinate falls inside the covered rectangle.
    pub open spec fn in_bounds(self, pos: Coord) -> bool {
        &&& 0 <= pos.x + self.off_x() < self.width_spec()
        &&& 0 <= pos.y + self.off_y() < self.height_spec()
    }

    /// Occupants of the storage cell `(x, y)` (storage coordinates).
    pub closed spec fn cell(self, x: int, y: int) -> Seq<Entity> {
        self.tiles@[x + self.width * y]@
    }

    /// Occupants registered at a world coordinate; empty outside the grid.
    pub open spec fn lookup_spec(self, pos: Coord) -> Seq<Entity> {
        if self.in_bounds(pos) {
            self.cell(pos.x + self.off_x(), pos.y + self.off_y())
        } else {
            Seq::empty()
        }
    }

    /// The world coordinate addressing the storage cell `(x, y)`.
    pub open spec fn world_at(self, x: int, y: int) -> Coord {
        Coord { x: (x - self.off_x()) as i32, y: (y - self.off_y()) as i32 }
    }

    /// Storage coordinates round-trip through their world coordinate.
    pub proof fn lemma_world_at_in_bounds(self, x: int, y: int)
        requires
            self.wf(),
            0 <= x < self.width_spec(),
            0 <= y < self.height_spec(),
        ensures
            self.in_bounds(self.world_at(x, y)),
            self.world_at(x, y).x + self.off_x() == x,
            self.world_at(x, y).y + self.off_y() == y,
            self.lookup_spec(self.world_at(x, y)) == self.cell(x, y),
    {
    }

    pub fn new(width: usize, height: usize) -> (m: TileMap)
        requires
            width <= i32::MAX,
            height <= i32::MAX,
            width * height <= usize::MAX,
        ensures
            m.wf(),
            m.width_spec() == width,
            m.height_spec() == height,
            forall|x: int, y: int| 0 <= x < width && 0 <= y < height ==> (#[trigger] m.cell(x, y)).len() == 0,
            forall|pos: Coord| (#[trigger] m.lookup_spec(pos)).len() == 0,
    {
        let total: usize = width * height;
        let mut tiles: Vec<Vec<Entity>> = Vec::new();
        let mut i: usize = 0;
        while i < total
            invariant
                i <= total,
                tiles@.len() == i,
                forall|j: int| 0 <= j < i ==> (#[trigger] tiles@[j])@.len() == 0,
            decreases total - i,
        {
            tiles.push(Vec::new());
            i = i + 1;
        }
        let m = TileMap {
            width,
            height,
            tiles,
            offset: Coord { x: (width as i32) / 2, y: (height as i32) / 2 },
        };
        proof {
            assert forall|x: int, y: int| 0 <= x < width && 0 <= y < height implies (#[trigger] m.cell(
                x,
                y,
            )).len() == 0 by {
                lemma_index_bound(width as int, height as int, x, y);
            }
            assert forall|pos: Coord| (#[trigger] m.lookup_spec(pos)).len() == 0 by {
                if m.in_bounds(pos) {
                    lemma_index_bound(
                        width as int,
                        height as int,
                        pos.x + m.off_x(),
                        pos.y + m.off_y(),
                    );
                }
            }
        }
        m
    }

    /// Translates a world coordinate to storage coordinates, or `None` when
    /// it lies outside the grid. Total: no input overflows or panics.
    fn translate(&self, pos: Coord) -> (r: Option<(usize, usize)>)
        requires
            self.wf(),
        ensures
            self.in_bounds(pos) ==> r == Some(
                (((pos.x + self.off_x()) as usize, (pos.y + self.off_y()) as usize)),
            ),
            !self.in_bounds(pos) ==> r is None,
    {
        let tx: i64 = pos.x as i64 + self.offset.x as i64;
        let ty: i64 = pos.y as i64 + self.offset.y as i64;
        if 0 <= tx && tx < self.width as i64 && 0 <= ty && ty < self.height as i64 {
            Some((tx as usize, ty as usize))
        } else {
            None
        }
    }

    /// Appends `e` to the cell at `pos`; silently a no-op outside the grid.
    pub fn insert(&mut self, pos: Coord, e: Entity)
        requires
            old(self).wf(),
        ensures
            final(self).wf(),
            final(self).width_spec() == old(self).width_spec(),
            final(self).height_spec() == old(self).height_spec(),
            old(self).in_bounds(pos) ==> final(self).lookup_spec(pos) == old(self).lookup_spec(
                pos,
            ).push(e),
            !old(self).in_bounds(pos) ==> *final(self) == *old(self),
            forall|p2: Coord| p2 != pos ==> #[trigger] final(self).lookup_spec(p2) == old(
                self,
            ).lookup_spec(p2),
    {
        let ghost m0 = *self;
        match self.translate(pos) {
            Some((tx, ty)) => {
                proof {
                    lemma_index_bound(self.width as int, self.height as int, tx as int, ty as int);
                }
                let idx: usize = tx + self.width * ty;
                self.tiles[idx].push(e);
                proof {
                    assert forall|p2: Coord| p2 != pos implies #[trigger] self.lookup_spec(p2)
                        == m0.lookup_spec(p2) by {
                        if m0.in_bounds(p2) {
                            lemma_index_bound(
                                m0.width as int,
                                m0.height as int,
                                p2.x + m0.off_x(),
                                p2.y + m0.off_y(),
                            );
                            lemma_index_injective(
                                m0.width as int,
                                p2.x + m0.off_x(),
                                p2.y + m0.off_y(),
                                tx as int,
                                ty as int,
                            );
                        }
                    }
                }
            },
            None => {},
        }
    }

    /// Occupants of the cell at `pos`; empty outside the grid. Never panics,
    /// for any `i32` coordinate including extreme values.
    pub fn get_tile(&self, pos: Coord) -> (r: Vec<Entity>)
        requires
            self.wf(),
        ensures
            r@ == self.lookup_spec(pos),
    {
        match self.translate(pos) {
            Some((tx, ty)) => {
                proof {
                    lemma_index_bound(self.width as int, self.height as int, tx as int, ty as int);
                }
                let idx: usize = tx + self.width * ty;
                let cell = &self.tiles[idx];
                let mut r: Vec<Entity> = Vec::new();
                let mut i: usize = 0;
                while i < cell.len()
                    invariant
                        i <= cell@.len(),
                        r@ == cell@.subrange(0, i as int),
                    decreases cell@.len() - i,
                {
                    r.push(cell[i]);
                    proof {
                        assert(r@ =~= cell@.subrange(0, i + 1));
                    }
                    i = i + 1;
                }
                proof {
                    assert(r@ =~= cell@);
                }
                r
            },
            None => Vec::new(),
        }
    }

    /// Whether the cell at `pos` holds any occupant (in this world only wall
    /// segments are registered, so a non-empty cell is a wall tile).
    pub fn is_wall(&self, pos: Coord) -> (r: bool)
        requires
            self.wf(),
        ensures
            r == (self.lookup_spec(pos).len() > 0),
    {
        match self.translate(pos) {
            Some((tx, ty)) => {
                proof {
                    lemma_index_bound(self.width as int, self.height as int, tx as int, ty as int);
                }
                let idx: usize = tx + self.width * ty;
                self.tiles[idx].len() > 0
            },
            None => false,
        }
    }

    /// Places one wall occupant at storage cell `(x, y)`: silently skipped
    /// when the cell lies outside the grid (clipping) or already holds an
    /// occupant (deduplication).
    fn spawn_wall_at(&mut self, world: &mut World, x: usize, y: usize)
        requires
            old(self).wf(),
            old(world).wf(),
        ensures
            final(self).wf(),
            final(world).wf(),
            final(self).width_spec() == old(self).width_spec(),
            final(self).height_spec() == old(self).height_spec(),
            preserves_entities(*old(world), *final(world)),
            forall|x2: int, y2: int|
                0 <= x2 < old(self).width_spec() && 0 <= y2 < old(self).height_spec() && !(x2
                    == x && y2 == y) ==> #[trigger] final(self).cell(x2, y2) == old(self).cell(
                    x2,
                    y2,
                ),
            x < old(self).width_spec() && y < old(self).height_spec() ==> (if old(self).cell(
                x as int,
                y as int,
            ).len() > 0 {
                final(self).cell(x as int, y as int) == old(self).cell(x as int, y as int)
                    && *final(world) == *old(world)
            } else {
                final(self).cell(x as int, y as int).len() == 1 && wall_props(
                    *final(world),
                    final(self).cell(x as int, y as int)[0],
                    old(self).world_at(x as int, y as int),
                )
            }),
            !(x < old(self).width_spec() && y < old(self).height_spec()) ==> *final(self) == *old(
                self,
            ) && *final(world) == *old(world),
            forall|e: Entity|
                old(world).n() <= e.0 < final(world).n() ==> registered_wall(
                    *final(self),
                    *final(world),
                    e,
                ),
    {
        let ghost m0 = *self;
        let ghost w0 = *world;
        if x >= self.width || y >= self.height {
            return ;
        }
        proof {
            self.lemma_world_at_in_bounds(x as int, y as int);
        }
        let wx: i32 = (x as i64 - self.offset.x as i64) as i32;
        let wy: i32 = (y as i64 - self.offset.y as i64) as i32;
        let wpos = Coord { x: wx, y: wy };
        assert(wpos == m0.world_at(x as int, y as int));
        if self.is_wall(wpos) {
            return ;
        }
        let e = world.spawn(
            Some(Position(wpos)),
            Some(Renderable { char: '#', color: [255, 255, 255] }),
            Some(Name("Wall")),
            Some(BlocksMoving),
        );
        self.insert(wpos, e);
        proof {
            assert forall|x2: int, y2: int|
                0 <= x2 < m0.width_spec() && 0 <= y2 < m0.height_spec() && !(x2 == x && y2
                    == y) implies #[trigger] self.cell(x2, y2) == m0.cell(x2, y2) by {
                m0.lemma_world_at_in_bounds(x2, y2);
                self.lemma_world_at_in_bounds(x2, y2);
            }
            assert(self.lookup_spec(wpos) =~= seq![e]);
            assert(wall_props(*world, e, wpos));
            assert forall|e2: Entity| w0.n() <= e2.0 < world.n() implies registered_wall(
                *self,
                *world,
                e2,
            ) by {
                assert(e2 == e);
            }
        }
    }

    /// Places the hollow square perimeter whose top-left lattice origin is
    /// the storage cell `(cx, cy)`: for each offset `i` in `[0, size)` the
    /// four edge cells `(cx+i, cy)`, `(cx, cy+i)`, `(cx+i, cy+size-1)` and
    /// `(cx+size-1, cy+i)`, each clipped and deduplicated.
    fn place_perimeter(&mut self, world: &mut World, cx: usize, cy: usize, size: usize)
        requires
            old(self).wf(),
            old(world).wf(),
            1 <= size,
            cx + size <= usize::MAX,
            cy + size <= usize::MAX,
        ensures
            final(self).wf(),
            final(world).wf(),
            final(self).width_spec() == old(self).width_spec(),
            final(self).height_spec() == old(self).height_spec(),
            preserves_entities(*old(world), *final(world)),
            forall|e: Entity|
                old(world).n() <= e.0 < final(world).n() ==> registered_wall(
                    *final(self),
                    *final(world),
                    e,
                ),
            forall|x: int, y: int|
                0 <= x < old(self).width_spec() && 0 <= y < old(self).height_spec() ==> (if old(
                    self,
                ).cell(x, y).len() > 0 || !on_perimeter(x, y, cx as int, cy as int, size as int) {
                    #[trigger] final(self).cell(x, y) == old(self).cell(x, y)
                } else {
                    final(self).cell(x, y).len() == 1 && wall_props(
                        *final(world),
                        final(self).cell(x, y)[0],
                        old(self).world_at(x, y),
                    )
                }),
    {
        let ghost m0 = *self;
        let ghost w0 = *world;
        let mut i: usize = 0;
        while i < size
            invariant
                m0.wf(),
                1 <= size,
                i <= size,
                cx + size <= usize::MAX,
                cy + size <= usize::MAX,
                gen_extends(m0, w0, *self, *world, cx as int, cy as int, size as int, i as int, 0),
            decreases size - i,
        {
            self.spawn_wall_step(world, Ghost(m0), Ghost(w0), Ghost(cx as int), Ghost(cy as int), Ghost(size as int), Ghost(i as int), Ghost(0), cx + i, cy);
            self.spawn_wall_step(world, Ghost(m0), Ghost(w0), Ghost(cx as int), Ghost(cy as int), Ghost(size as int), Ghost(i as int), Ghost(1), cx, cy + i);
            self.spawn_wall_step(world, Ghost(m0), Ghost(w0), Ghost(cx as int), Ghost(cy as int), Ghost(size as int), Ghost(i as int), Ghost(2), cx + i, cy + size - 1);
            self.spawn_wall_step(world, Ghost(m0), Ghost(w0), Ghost(cx as int), Ghost(cy as int), Ghost(size as int), Ghost(i as int), Ghost(3), cx + size - 1, cy + i);
            i = i + 1;
            proof {
                assert forall|x: int, y: int|
                    0 <= x < m0.width_spec() && 0 <= y < m0.height_spec() implies (if m0.cell(
                        x,
                        y,
                    ).len() > 0 || !partial_step(
                        x,
                        y,
                        cx as int,
                        cy as int,
                        size as int,
                        i as int,
                        0,
                    ) {
                        #[trigger] self.cell(x, y) == m0.cell(x, y)
                    } else {
                        self.cell(x, y).len() == 1 && wall_props(
                            *world,
                            self.cell(x, y)[0],
                            m0.world_at(x, y),
                        )
                    }) by {
                    assert(partial_step(x, y, cx as int, cy as int, size as int, i as int, 0)
                        == partial_step(x, y, cx as int, cy as int, size as int, i - 1, 4));
                }
            }
        }
        proof {
            assert forall|x: int, y: int|
                0 <= x < m0.width_spec() && 0 <= y < m0.height_spec() implies (if m0.cell(
                    x,
                    y,
                ).len() > 0 || !on_perimeter(x, y, cx as int, cy as int, size as int) {
                    #[trigger] self.cell(x, y) == m0.cell(x, y)
                } else {
                    self.cell(x, y).len() == 1 && wall_props(
                        *world,
                        self.cell(x, y)[0],
                        m0.world_at(x, y),
                    )
                }) by {
                assert(on_perimeter(x, y, cx as int, cy as int, size as int) == partial_step(
                    x,
                    y,
                    cx as int,
                    cy as int,
                    size as int,
                    size as int,
                    0,
                ));
            }
        }
    }

    /// One placement step inside `place_perimeter`: places the `s`-th edge
    /// cell of offset `i` and carries the perimeter bookkeeping along.
    fn spawn_wall_step(
        &mut self,
        world: &mut World,
        Ghost(m0): Ghost<TileMap>,
        Ghost(w0): Ghost<World>,
        Ghost(cx0): Ghost<int>,
        Ghost(cy0): Ghost<int>,
        Ghost(size0): Ghost<int>,
        Ghost(i): Ghost<int>,
        Ghost(s): Ghost<int>,
        x: usize,
        y: usize,
    )
        requires
            m0.wf(),
            gen_extends(m0, w0, *old(self), *old(world), cx0, cy0, size0, i, s),
            1 <= size0,
            0 <= i < size0,
            0 <= s < 4,
            s == 0 ==> x == cx0 + i && y == cy0,
            s == 1 ==> x == cx0 && y == cy0 + i,
            s == 2 ==> x == cx0 + i && y == cy0 + size0 - 1,
            s == 3 ==> x == cx0 + size0 - 1 && y == cy0 + i,
        ensures
            gen_extends(m0, w0, *final(self), *final(world), cx0, cy0, size0, i, s + 1),
    {
        let ghost m_a = *self;
        let ghost w_a = *world;
        self.spawn_wall_at(world, x, y);
        proof {
            lemma_preserves_trans(w0, w_a, *world);
            assert forall|a: int, b: int|
                0 <= a < m0.width_spec() && 0 <= b < m0.height_spec() implies (if m0.cell(
                    a,
                    b,
                ).len() > 0 || !partial_step(a, b, cx0, cy0, size0, i, s + 1) {
                    #[trigger] self.cell(a, b) == m0.cell(a, b)
                } else {
                    self.cell(a, b).len() == 1 && wall_props(
                        *world,
                        self.cell(a, b)[0],
                        m0.world_at(a, b),
                    )
                }) by {
                if m0.cell(a, b).len() == 0 && partial_step(a, b, cx0, cy0, size0, i, s) {
                    lemma_wall_props_preserved(w_a, *world, m_a.cell(a, b)[0], m0.world_at(a, b));
                }
            }
            assert forall|a: int, b: int|
                0 <= a < m_a.width_spec() && 0 <= b < m_a.height_spec() && m_a.cell(a, b).len()
                    > 0 implies #[trigger] self.cell(a, b) == m_a.cell(a, b) by {}
            assert forall|e: Entity| w0.n() <= e.0 < world.n() implies registered_wall(
                *self,
                *world,
                e,
            ) by {
                if e.0 < w_a.n() {
                    lemma_registered_preserved(m_a, w_a, *self, *world, e);
                }
            }
        }
    }

    /// Generates the wall structures directed by an explicit decision table
    /// (row-major: `decisions[row][col]` decides the lattice cell in that
    /// row and column), registering every wall occupant into `world` and
    /// into the returned index. The occupied cells are exactly those
    /// `wall_covered` by the table, so placement is a pure function of the
    /// arguments: equal inputs reproduce equal occupancy. Overlapping
    /// perimeters are deduplicated, so no cell ever holds two occupants.
    pub fn grid_from_decisions(
        width: usize,
        height: usize,
        size: usize,
        decisions: &Vec<Vec<bool>>,
        world: &mut World,
    ) -> (m: TileMap)
        requires
            old(world).wf(),
            1 <= size,
            width <= i32::MAX,
            height <= i32::MAX,
            width * height <= usize::MAX,
            width + 2 * size <= usize::MAX,
            height + 2 * size <= usize::MAX,
        ensures
            m.wf(),
            m.width_spec() == width,
            m.height_spec() == height,
            final(world).wf(),
            preserves_entities(*old(world), *final(world)),
            grid_occupancy_matches(
                m,
                width as int,
                height as int,
                size as int,
                decisions.deep_view(),
            ),
            forall|x: int, y: int|
                0 <= x < width && 0 <= y < height ==> (#[trigger] m.cell(x, y)).len() <= 1,
            forall|x: int, y: int|
                0 <= x < width && 0 <= y < height && (#[trigger] m.cell(x, y)).len() > 0
                    ==> wall_props(*final(world), m.cell(x, y)[0], m.world_at(x, y)),
            forall|e: Entity|
                old(world).n() <= e.0 < final(world).n() ==> registered_wall(m, *final(world), e),
    {
        let ghost w0 = *world;
        let ghost dv = decisions.deep_view();
        let mut m = TileMap::new(width, height);
        let stride: usize = 2 * size;
        let mut cy: usize = 0;
        let mut row: usize = 0;
        while cy < height
            invariant
                m.wf(),
                m.width_spec() == width,
                m.height_spec() == height,
                world.wf(),
                preserves_entities(w0, *world),
                forall|e: Entity| w0.n() <= e.0 < world.n() ==> registered_wall(m, *world, e),
                1 <= size,
                stride == 2 * size,
                width <= i32::MAX,
                height <= i32::MAX,
                width + stride <= usize::MAX,
                height + stride <= usize::MAX,
                cy == row * stride,
                row <= cy,
                cy <= height + stride,
                dv == decisions.deep_view(),
                forall|x: int, y: int|
                    0 <= x < width && 0 <= y < height ==> (if covered_before(
                        width as int,
                        height as int,
                        size as int,
                        dv,
                        x,
                        y,
                        0,
                        row as int,
                    ) {
                        (#[trigger] m.cell(x, y)).len() == 1 && wall_props(
                            *world,
                            m.cell(x, y)[0],
                            m.world_at(x, y),
                        )
                    } else {
                        m.cell(x, y).len() == 0
                    }),
            decreases height + stride - cy,
        {
            let mut cx: usize = 0;
            let mut col: usize = 0;
            while cx < width
                invariant
                    m.wf(),
                    m.width_spec() == width,
                    m.height_spec() == height,
                    world.wf(),
                    preserves_entities(w0, *world),
                    forall|e: Entity| w0.n() <= e.0 < world.n() ==> registered_wall(m, *world, e),
                    1 <= size,
                    stride == 2 * size,
                    width <= i32::MAX,
                    height <= i32::MAX,
                    width + stride <= usize::MAX,
                    height + stride <= usize::MAX,
                    cy == row * stride,
                    row <= cy,
                    cy < height,
                    cx == col * stride,
                    col <= cx,
                    cx <= width + stride,
                    dv == decisions.deep_view(),
                    forall|x: int, y: int|
                        0 <= x < width && 0 <= y < height ==> (if covered_before(
                            width as int,
                            height as int,
                            size as int,
                            dv,
                            x,
                            y,
                            col as int,
                            row as int,
                        ) {
                            (#[trigger] m.cell(x, y)).len() == 1 && wall_props(
                                *world,
                                m.cell(x, y)[0],
                                m.world_at(x, y),
                            )
                        } else {
                            m.cell(x, y).len() == 0
                        }),
                decreases width + stride - cx,
            {
                let place: bool = if row < decisions.len() {
                    let rowv = &decisions[row];
                    if col < rowv.len() {
                        rowv[col]
                    } else {
                        false
                    }
                } else {
                    false
                };
                proof {
                    lemma_fundamental_div_mod_converse(cx as int, stride as int, col as int, 0);
                    lemma_fundamental_div_mod_converse(cy as int, stride as int, row as int, 0);
                    assert(place == decision_at(dv, col as int, row as int));
                }
                let ghost m_b = m;
                let ghost w_b = *world;
                if place {
                    m.place_perimeter(world, cx, cy, size);
                }
                proof {
                    lemma_preserves_trans(w0, w_b, *world);
                    assert forall|x: int, y: int|
                        0 <= x < width && 0 <= y < height && m_b.cell(x, y).len()
                            > 0 implies #[trigger] m.cell(x, y) == m_b.cell(x, y) by {}
                    assert forall|e: Entity| w0.n() <= e.0 < world.n() implies registered_wall(
                        m,
                        *world,
                        e,
                    ) by {
                        if e.0 < w_b.n() {
                            lemma_registered_preserved(m_b, w_b, m, *world, e);
                        }
                    }
                    assert forall|x: int, y: int|
                        0 <= x < width && 0 <= y < height implies (if covered_before(
                            width as int,
                            height as int,
                            size as int,
                            dv,
                            x,
                            y,
                            col as int + 1,
                            row as int,
                        ) {
                            (#[trigger] m.cell(x, y)).len() == 1 && wall_props(
                                *world,
                                m.cell(x, y)[0],
                                m.world_at(x, y),
                            )
                        } else {
                            m.cell(x, y).len() == 0
                        }) by {
                        lemma_lattice_of_point(x, stride as int, col as int);
                        lemma_lattice_of_point(y, stride as int, row as int);
                        if m_b.cell(x, y).len() > 0 {
                            lemma_wall_props_preserved(
                                w_b,
                                *world,
                                m_b.cell(x, y)[0],
                                m_b.world_at(x, y),
                            );
                        }
                    }
                }
                proof {
                    assert((col as int + 1) * (stride as int) == col as int * (stride as int)
                        + (stride as int)) by (nonlinear_arith);
                }
                cx = cx + stride;
                col = col + 1;
            }
            proof {
                assert forall|x: int, y: int|
                    0 <= x < width && 0 <= y < height implies (covered_before(
                        width as int,
                        height as int,
                        size as int,
                        dv,
                        x,
                        y,
                        0,
                        row as int + 1,
                    ) == covered_before(
                        width as int,
                        height as int,
                        size as int,
                        dv,
                        x,
                        y,
                        col as int,
                        row as int,
                    )) by {
                    lemma_point_before(x, stride as int, col as int);
                    lemma_lattice_of_point(y, stride as int, row as int);
                }
            }
            proof {
                assert((row as int + 1) * (stride as int) == row as int * (stride as int)
                    + (stride as int)) by (nonlinear_arith);
            }
            cy = cy + stride;
            row = row + 1;
        }
        proof {
            assert forall|x: int, y: int|
                0 <= x < width && 0 <= y < height implies (covered_before(
                    width as int,
                    height as int,
                    size as int,
                    dv,
                    x,
                    y,
                    0,
                    row as int,
                ) == wall_covered(width as int, height as int, size as int, dv, x, y)) by {
                lemma_point_before(y, stride as int, row as int);
                lemma_lattice_of_point(x, stride as int, 0);
            }
        }
        m
    }

    /// Generates wall structures with one independent random coin per
    /// lattice cell, as `grid_from_decisions` does for the table those
    /// coins form: some decision table reproduces the occupancy, every
    /// cell holds at most one occupant, and every occupant is a wall.
    pub fn grid(width: usize, height: usize, size: usize, world: &mut World) -> (m: TileMap)
        requires
            old(world).wf(),
            1 <= size,
            width <= i32::MAX,
            height <= i32::MAX,
            width * height <= usize::MAX,
            width + 2 * size <= usize::MAX,
            height + 2 * size <= usize::MAX,
        ensures
            m.wf(),
            m.width_spec() == width,
            m.height_spec() == height,
            final(world).wf(),
            preserves_entities(*old(world), *final(world)),
            exists|d: Seq<Seq<bool>>|
                grid_occupancy_matches(m, width as int, height as int, size as int, d),
            forall|x: int, y: int|
                0 <= x < width && 0 <= y < height ==> (#[trigger] m.cell(x, y)).len() <= 1,
            forall|x: int, y: int|
                0 <= x < width && 0 <= y < height && (#[trigger] m.cell(x, y)).len() > 0
                    ==> wall_props(*final(world), m.cell(x, y)[0], m.world_at(x, y)),
            forall|e: Entity|
                old(world).n() <= e.0 < final(world).n() ==> registered_wall(m, *final(world), e),
    {
        let stride: usize = 2 * size;
        let mut coins: Vec<Vec<bool>> = Vec::new();
        let mut cy: usize = 0;
        while cy < height
            invariant
                1 <= size,
                stride == 2 * size,
                width + stride <= usize::MAX,
                height + stride <= usize::MAX,
                cy <= height + stride,
            decreases height + stride - cy,
        {
            let mut rowv: Vec<bool> = Vec::new();
            let mut cx: usize = 0;
            while cx < width
                invariant
                    1 <= size,
                    stride == 2 * size,
                    width + stride <= usize::MAX,
                    cx <= width + stride,
                decreases width + stride - cx,
            {
                rowv.push(rand::random::<bool>());
                cx = cx + stride;
            }
            coins.push(rowv);
            cy = cy + stride;
        }
        let m = Self::grid_from_decisions(width, height, size, &coins, world);
        proof {
            assert(grid_occupancy_matches(
                m,
                width as int,
                height as int,
                size as int,
                coins.deep_view(),
            ));
        }
        m
    }

    /// Bounds invariant: a lookup outside `[-off, dims - off)` on either
    /// axis is empty.
    pub proof fn lemma_lookup_outside_empty(self, pos: Coord)
        requires
            !(-self.off_x() <= pos.x < self.width_spec() - self.off_x()) || !(-self.off_y()
                <= pos.y < self.height_spec() - self.off_y()),
        ensures
            self.lookup_spec(pos).len() == 0,
    {
    }
}

} // verus!
