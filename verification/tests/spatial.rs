use tileworld::{Coord, Entity, TileMap, World};

fn c(x: i32, y: i32) -> Coord {
    Coord::new(x, y)
}

#[test]
fn lookup_outside_bounds_is_empty() {
    let m = TileMap::new(10, 10);
    // offset is (5, 5): covered world coordinates are [-5, 5) per axis
    assert_eq!(m.get_tile(c(-6, 0)).len(), 0);
    assert_eq!(m.get_tile(c(0, -6)).len(), 0);
    assert_eq!(m.get_tile(c(5, 0)).len(), 0);
    assert_eq!(m.get_tile(c(0, 5)).len(), 0);
    assert_eq!(m.get_tile(c(-5, 4)).len(), 0);
}

#[test]
fn lookup_never_panics_on_extreme_coordinates() {
    let m = TileMap::new(10, 10);
    assert_eq!(m.get_tile(c(i32::MAX, i32::MAX)).len(), 0);
    assert_eq!(m.get_tile(c(i32::MIN, i32::MIN)).len(), 0);
    assert_eq!(m.get_tile(c(i32::MAX, 0)).len(), 0);
    assert_eq!(m.get_tile(c(0, i32::MIN)).len(), 0);
    assert_eq!(m.get_tile(c(i32::MIN, i32::MAX)).len(), 0);
}

#[test]
fn insert_appends_in_order() {
    let mut m = TileMap::new(10, 10);
    m.insert(c(0, 0), Entity(7));
    m.insert(c(0, 0), Entity(9));
    let cell = m.get_tile(c(0, 0));
    assert_eq!(cell.len(), 2);
    assert_eq!(cell[0], Entity(7));
    assert_eq!(cell[1], Entity(9));
    assert_eq!(m.get_tile(c(1, 0)).len(), 0);
}

#[test]
fn insert_outside_bounds_is_a_noop() {
    let mut m = TileMap::new(10, 10);
    m.insert(c(5, 0), Entity(1));
    m.insert(c(-6, -6), Entity(2));
    m.insert(c(i32::MAX, 3), Entity(3));
    for x in -5..5 {
        for y in -5..5 {
            assert_eq!(m.get_tile(c(x, y)).len(), 0);
        }
    }
}

#[test]
fn is_wall_tracks_occupancy() {
    let mut m = TileMap::new(10, 10);
    assert!(!m.is_wall(c(2, 2)));
    m.insert(c(2, 2), Entity(0));
    assert!(m.is_wall(c(2, 2)));
    assert!(!m.is_wall(c(2, 3)));
    assert!(!m.is_wall(c(i32::MIN, 0)));
}

#[test]
fn generation_is_deterministic_for_a_fixed_decision_table() {
    // a constant all-true random stream: every lattice cell is chosen
    let rows: Vec<Vec<bool>> = vec![vec![true; 6]; 6];
    let mut w1 = World::new();
    let mut w2 = World::new();
    let m1 = TileMap::grid_from_decisions(12, 12, 1, &rows, &mut w1);
    let m2 = TileMap::grid_from_decisions(12, 12, 1, &rows, &mut w2);
    // size 1, stride 2: each chosen perimeter is the single cell at its
    // lattice origin, so exactly the even storage coordinates are occupied
    for sx in 0..12i32 {
        for sy in 0..12i32 {
            let pos = c(sx - 6, sy - 6);
            let expected = if sx % 2 == 0 && sy % 2 == 0 { 1 } else { 0 };
            assert_eq!(m1.get_tile(pos).len(), expected);
            assert_eq!(m2.get_tile(pos).len(), expected);
            assert_eq!(m1.get_tile(pos).len(), m2.get_tile(pos).len());
        }
    }
}

#[test]
fn generated_occupants_are_walls_with_matching_positions() {
    let rows: Vec<Vec<bool>> = vec![vec![true; 3]; 3];
    let mut w = World::new();
    let m = TileMap::grid_from_decisions(16, 16, 4, &rows, &mut w);
    let mut occupied = 0;
    for sx in 0..16i32 {
        for sy in 0..16i32 {
            let pos = c(sx - 8, sy - 8);
            let cell = m.get_tile(pos);
            assert!(cell.len() <= 1);
            if let Some(&e) = cell.first() {
                occupied += 1;
                let p = w.position(e).expect("wall occupant has a position");
                assert_eq!(p.0, pos);
                assert!(w.blocks_moving(e));
                let r = w.renderable(e).expect("wall occupant is renderable");
                assert_eq!(r.char, '#');
                assert_eq!(r.color, [255, 255, 255]);
                assert_eq!(w.name(e).expect("wall occupant is named").0, "Wall");
            }
        }
    }
    // two chosen squares of side 4 at origins (0,0) and (8,8) fit whole:
    // 12 perimeter cells each; the squares at (0,8), (8,0) add 12 more each
    assert_eq!(occupied, 48);
    // conversely, every spawned entity is the sole occupant of the cell
    // matching its own position: generation leaves no unregistered entity
    assert_eq!(w.num_entities(), occupied);
    for id in 0..w.num_entities() {
        let e = Entity(id);
        let p = w.position(e).expect("generated entity has a position");
        assert_eq!(m.get_tile(p.0), vec![e]);
    }
}

#[test]
fn random_generation_never_doubles_an_occupant() {
    let mut w = World::new();
    let m = TileMap::grid(20, 20, 2, &mut w);
    for sx in 0..20i32 {
        for sy in 0..20i32 {
            let pos = c(sx - 10, sy - 10);
            let cell = m.get_tile(pos);
            assert!(cell.len() <= 1);
            if let Some(&e) = cell.first() {
                assert!(w.blocks_moving(e));
                assert_eq!(w.renderable(e).unwrap().char, '#');
            }
        }
    }
}

#[test]
fn perimeter_cells_outside_the_grid_are_clipped() {
    // one lattice cell, square side 3 on a 2x2 grid: the perimeter is the
    // boundary of [0,3) x [0,3), so inside the grid everything but the
    // square's center is occupied, and nothing overflows the grid
    let rows: Vec<Vec<bool>> = vec![vec![true]];
    let mut w = World::new();
    let m = TileMap::grid_from_decisions(2, 2, 3, &rows, &mut w);
    // offset is (1, 1): storage (sx, sy) holds world (sx - 1, sy - 1)
    assert_eq!(m.get_tile(c(-1, -1)).len(), 1);
    assert_eq!(m.get_tile(c(0, -1)).len(), 1);
    assert_eq!(m.get_tile(c(-1, 0)).len(), 1);
    assert_eq!(m.get_tile(c(0, 0)).len(), 0); // the square's hollow center
}

#[test]
fn skipped_lattice_cells_stay_empty() {
    let rows: Vec<Vec<bool>> = vec![vec![false; 4]; 4];
    let mut w = World::new();
    let m = TileMap::grid_from_decisions(8, 8, 1, &rows, &mut w);
    for sx in 0..8i32 {
        for sy in 0..8i32 {
            assert_eq!(m.get_tile(c(sx - 4, sy - 4)).len(), 0);
        }
    }
    // a decision table shorter than the lattice also means "skip"
    let mut w2 = World::new();
    let m2 = TileMap::grid_from_decisions(8, 8, 1, &vec![], &mut w2);
    assert_eq!(m2.get_tile(c(0, 0)).len(), 0);
}

#[test]
fn coord_checked_arithmetic_handles_overflow() {
    assert_eq!(c(1, 2).checked_add(c(3, 4)), Some(c(4, 6)));
    assert_eq!(c(i32::MAX, 0).checked_add(c(1, 0)), None);
    assert_eq!(c(0, i32::MIN).checked_sub(c(0, 1)), None);
    assert_eq!(c(-5, 7).checked_sub(c(-2, 9)), Some(c(-3, -2)));
}
