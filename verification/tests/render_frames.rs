use tileworld::render::wall_glyph;
use tileworld::{
    BlocksMoving, ControlState, Coord, Game, Name, Position, Rect, Renderable, RenderContext,
    ScreenBuffer, TileMap, World,
};

fn c(x: i32, y: i32) -> Coord {
    Coord::new(x, y)
}

fn game_with_walls(player_at: Coord, walls: &[Coord]) -> Game {
    let mut world = World::new();
    let player = world.spawn(
        Some(Position(player_at)),
        Some(Renderable { char: '@', color: [0, 255, 0] }),
        Some(Name("Player")),
        None,
    );
    let mut map = TileMap::new(10, 10);
    for &w in walls {
        let e = world.spawn(
            Some(Position(w)),
            Some(Renderable { char: '#', color: [255, 255, 255] }),
            Some(Name("Wall")),
            Some(BlocksMoving),
        );
        map.insert(w, e);
    }
    Game { player, map, world, state: ControlState::Player }
}

fn glyph_at(b: &ScreenBuffer, x: u16, y: u16) -> char {
    b.cells[(x as usize) + (b.width as usize) * (y as usize)].glyph
}

#[test]
fn camera_centering_maps_the_focal_point_to_the_middle() {
    let g = game_with_walls(c(0, 0), &[]);
    let ctx = RenderContext::new(Rect { x: 0, y: 0, width: 7, height: 7 }, &g)
        .expect("player has a position");
    assert_eq!(ctx.screen_position(c(0, 0)), Some((3, 3)));
    assert_eq!(ctx.screen_position(c(4, 0)), None);
    assert_eq!(ctx.screen_position(c(5, 0)), None);
    assert_eq!(ctx.screen_position(c(0, 4)), None);
    assert_eq!(ctx.screen_position(c(-3, -3)), Some((0, 0)));
    assert_eq!(ctx.screen_position(c(3, 3)), Some((6, 6)));
    assert_eq!(ctx.screen_position(c(-4, 0)), None);
}

#[test]
fn camera_corners_follow_the_asymmetric_rounding() {
    let g = game_with_walls(c(0, 0), &[]);
    let ctx = RenderContext::new(Rect { x: 0, y: 0, width: 8, height: 7 }, &g).unwrap();
    assert_eq!(ctx.cam.top_left(), c(-4, -3));
    assert_eq!(ctx.cam.bottom_right(), c(3, 3));
}

#[test]
fn screen_position_is_offset_by_the_viewport_origin() {
    let g = game_with_walls(c(0, 0), &[]);
    let ctx = RenderContext::new(Rect { x: 2, y: 1, width: 7, height: 7 }, &g).unwrap();
    assert_eq!(ctx.screen_position(c(0, 0)), Some((5, 4)));
    assert_eq!(ctx.screen_position(c(4, 0)), None);
}

#[test]
fn autotile_table_is_complete() {
    // (left, right, up, down) -> glyph, all sixteen combinations
    assert_eq!(wall_glyph(true, true, true, true), '╬');
    assert_eq!(wall_glyph(true, true, true, false), '╩');
    assert_eq!(wall_glyph(true, true, false, true), '╦');
    assert_eq!(wall_glyph(true, true, false, false), '═');
    assert_eq!(wall_glyph(true, false, true, true), '╣');
    assert_eq!(wall_glyph(true, false, true, false), '╝');
    assert_eq!(wall_glyph(true, false, false, true), '╗');
    assert_eq!(wall_glyph(true, false, false, false), '═');
    assert_eq!(wall_glyph(false, true, true, true), '╠');
    assert_eq!(wall_glyph(false, true, true, false), '╚');
    assert_eq!(wall_glyph(false, true, false, true), '╔');
    assert_eq!(wall_glyph(false, true, false, false), '═');
    assert_eq!(wall_glyph(false, false, true, true), '║');
    assert_eq!(wall_glyph(false, false, true, false), '║');
    assert_eq!(wall_glyph(false, false, false, true), '║');
    assert_eq!(wall_glyph(false, false, false, false), '#');
}

#[test]
fn isolated_wall_renders_the_fallback_and_gains_a_segment_with_a_neighbor() {
    // empty 10x10 grid with one wall at (3,3): its glyph is the isolated
    // fallback; adding a wall at (4,3) turns (3,3) into a right-connected
    // horizontal segment
    let area = Rect { x: 0, y: 0, width: 10, height: 10 };

    let g = game_with_walls(c(0, 0), &[c(3, 3)]);
    let ctx = RenderContext::new(area, &g).unwrap();
    let mut buffer = ScreenBuffer::new(10, 10);
    ctx.render(&g, &mut buffer);
    assert_eq!(ctx.screen_position(c(3, 3)), Some((8, 8)));
    assert_eq!(glyph_at(&buffer, 8, 8), '#');

    let g2 = game_with_walls(c(0, 0), &[c(3, 3), c(4, 3)]);
    let ctx2 = RenderContext::new(area, &g2).unwrap();
    let mut buffer2 = ScreenBuffer::new(10, 10);
    ctx2.render(&g2, &mut buffer2);
    assert_eq!(glyph_at(&buffer2, 8, 8), '═');
    assert_eq!(glyph_at(&buffer2, 9, 8), '═');
}

#[test]
fn entities_and_markers_are_drawn() {
    let g = game_with_walls(c(0, 0), &[]);
    let area = Rect { x: 0, y: 0, width: 7, height: 7 };
    let ctx = RenderContext::new(area, &g).unwrap();
    let mut buffer = ScreenBuffer::new(7, 7);
    ctx.render(&g, &mut buffer);
    // the player at the focal point sits in the middle cell
    assert_eq!(glyph_at(&buffer, 3, 3), '@');
    // boundary markers at the projected top-left and bottom-right corners
    assert_eq!(glyph_at(&buffer, 0, 0), '#');
    assert_eq!(glyph_at(&buffer, 6, 6), '#');
    // an untouched cell stays blank
    assert_eq!(glyph_at(&buffer, 1, 2), ' ');
}

#[test]
fn selection_markers_flank_the_cursor() {
    let mut g = game_with_walls(c(0, 0), &[]);
    g.state = ControlState::Selection(c(0, 0));
    let area = Rect { x: 0, y: 0, width: 7, height: 7 };
    let ctx = RenderContext::new(area, &g).unwrap();
    let mut buffer = ScreenBuffer::new(7, 7);
    ctx.render(&g, &mut buffer);
    // '<' is drawn one cell right of the cursor, '>' one cell left
    assert_eq!(glyph_at(&buffer, 4, 3), '<');
    assert_eq!(glyph_at(&buffer, 2, 3), '>');
    assert_eq!(glyph_at(&buffer, 3, 3), '@');
}

#[test]
fn writes_outside_the_buffer_are_dropped() {
    let mut b = ScreenBuffer::new(4, 3);
    b.set(1, 2, 'x', [1, 2, 3]);
    assert_eq!(glyph_at(&b, 1, 2), 'x');
    assert_eq!(b.cells[1 + 4 * 2].fg, [1, 2, 3]);
    b.set(4, 0, 'y', [0, 0, 0]);
    b.set(0, 3, 'z', [0, 0, 0]);
    for (i, cell) in b.cells.iter().enumerate() {
        if i != 1 + 4 * 2 {
            assert_eq!(cell.glyph, ' ');
        }
    }
}

#[test]
fn render_context_is_none_without_a_player_position() {
    let mut world = World::new();
    let player = world.spawn(None, None, None, None);
    let g = Game {
        player,
        map: TileMap::new(4, 4),
        world,
        state: ControlState::Player,
    };
    let area = Rect { x: 0, y: 0, width: 7, height: 7 };
    assert!(RenderContext::new(area, &g).is_none());
}
