use tileworld::{
    BlocksMoving, Command, ControlState, Coord, Entity, Game, Intent, MovePlayer, Name, Position,
    Renderable, TileMap, World,
};

fn c(x: i32, y: i32) -> Coord {
    Coord::new(x, y)
}

/// A small hand-built game: the player at `player_at`, plus one
/// movement-blocking wall registered at each of `walls`.
fn small_game(player_at: Coord, walls: &[Coord]) -> Game {
    let mut world = World::new();
    let player = world.spawn(
        Some(Position(player_at)),
        Some(Renderable { char: '@', color: [0, 255, 0] }),
        Some(Name("Player")),
        None,
    );
    let mut map = TileMap::new(20, 20);
    for &w in walls {
        let e = world.spawn(
            Some(Position(w)),
            Some(Renderable { char: '#', color: [255, 255, 255] }),
            Some(Name("Wall")),
            Some(BlocksMoving),
        );
        map.insert(w, e);
    }
    Game { player, map, world, state: ControlState::Player }
}

#[test]
fn movement_is_blocked_by_a_tagged_occupant() {
    let mut g = small_game(c(4, 5), &[c(5, 5)]);
    g.move_player(c(1, 0));
    assert_eq!(g.player_pos(), Some(c(4, 5)));
    g.move_player(c(0, 1));
    assert_eq!(g.player_pos(), Some(c(4, 6)));
}

#[test]
fn movement_into_an_empty_cell_succeeds() {
    let mut g = small_game(c(0, 0), &[]);
    g.move_player(c(-1, 0));
    assert_eq!(g.player_pos(), Some(c(-1, 0)));
    g.move_player(c(0, -1));
    assert_eq!(g.player_pos(), Some(c(-1, -1)));
    // arbitrary integer deltas are allowed, also beyond the indexed grid
    g.move_player(c(100, 100));
    assert_eq!(g.player_pos(), Some(c(99, 99)));
}

#[test]
fn movement_with_an_unrepresentable_candidate_is_a_noop() {
    let mut g = small_game(c(i32::MAX, 0), &[]);
    g.move_player(c(1, 0));
    assert_eq!(g.player_pos(), Some(c(i32::MAX, 0)));
    g.move_player(c(-1, 0));
    assert_eq!(g.player_pos(), Some(c(i32::MAX - 1, 0)));
}

#[test]
fn movement_for_a_player_without_a_position_is_a_noop() {
    let mut world = World::new();
    let player = world.spawn(None, None, Some(Name("Ghostly")), None);
    let map = TileMap::new(10, 10);
    let mut g = Game { player, map, world, state: ControlState::Player };
    g.move_player(c(1, 0));
    assert_eq!(g.player_pos(), None);
}

#[test]
fn move_player_command_executes_the_move() {
    let mut g = small_game(c(4, 5), &[c(5, 5)]);
    MovePlayer(c(1, 0)).execute(&mut g);
    assert_eq!(g.player_pos(), Some(c(4, 5)));
    MovePlayer(c(0, 1)).execute(&mut g);
    assert_eq!(g.player_pos(), Some(c(4, 6)));
}

#[test]
fn toggle_enters_selection_at_the_player_and_leaves_it() {
    let mut g = small_game(c(2, 3), &[]);
    assert!(!g.apply_intent(Intent::ToggleSelectionMode));
    assert_eq!(g.state, ControlState::Selection(c(2, 3)));
    assert!(!g.apply_intent(Intent::ToggleSelectionMode));
    assert_eq!(g.state, ControlState::Player);
}

#[test]
fn cursor_moves_only_in_selection_mode() {
    let mut g = small_game(c(0, 0), &[]);
    assert!(!g.apply_intent(Intent::MoveCursorBy(c(1, 0))));
    assert_eq!(g.state, ControlState::Player);
    g.apply_intent(Intent::ToggleSelectionMode);
    assert!(!g.apply_intent(Intent::MoveCursorBy(c(1, 0))));
    assert_eq!(g.state, ControlState::Selection(c(1, 0)));
    assert!(!g.apply_intent(Intent::MoveCursorBy(c(0, -2))));
    assert_eq!(g.state, ControlState::Selection(c(1, -2)));
    // cursor movement does not touch the player
    assert_eq!(g.player_pos(), Some(c(0, 0)));
}

#[test]
fn cursor_moves_through_blocked_cells() {
    let mut g = small_game(c(4, 5), &[c(5, 5)]);
    g.apply_intent(Intent::ToggleSelectionMode);
    g.apply_intent(Intent::MoveCursorBy(c(1, 0)));
    assert_eq!(g.state, ControlState::Selection(c(5, 5)));
}

#[test]
fn toggle_without_a_player_position_is_a_noop() {
    let mut world = World::new();
    let player = world.spawn(None, None, None, None);
    let map = TileMap::new(10, 10);
    let mut g = Game { player, map, world, state: ControlState::Player };
    assert!(!g.apply_intent(Intent::ToggleSelectionMode));
    assert_eq!(g.state, ControlState::Player);
}

#[test]
fn cursor_does_not_wrap_at_the_coordinate_edge() {
    let mut g = small_game(c(0, 0), &[]);
    g.state = ControlState::Selection(c(i32::MAX, 0));
    assert!(!g.apply_intent(Intent::MoveCursorBy(c(1, 0))));
    assert_eq!(g.state, ControlState::Selection(c(i32::MAX, 0)));
    assert!(!g.apply_intent(Intent::MoveCursorBy(c(-1, 0))));
    assert_eq!(g.state, ControlState::Selection(c(i32::MAX - 1, 0)));
}

#[test]
fn quit_reports_and_changes_nothing() {
    let mut g = small_game(c(2, 3), &[c(5, 5)]);
    assert!(g.apply_intent(Intent::Quit));
    assert_eq!(g.state, ControlState::Player);
    assert_eq!(g.player_pos(), Some(c(2, 3)));
}

#[test]
fn move_by_intent_respects_blocking() {
    let mut g = small_game(c(4, 5), &[c(5, 5)]);
    assert!(!g.apply_intent(Intent::MoveBy(c(1, 0))));
    assert_eq!(g.player_pos(), Some(c(4, 5)));
    assert!(!g.apply_intent(Intent::MoveBy(c(0, 1))));
    assert_eq!(g.player_pos(), Some(c(4, 6)));
}

#[test]
fn occupant_names_lists_the_inspected_cell() {
    let mut g = small_game(c(0, 0), &[c(3, 3)]);
    let unnamed = g.world.spawn(Some(Position(c(3, 3))), None, None, None);
    g.map.insert(c(3, 3), unnamed);
    assert_eq!(g.occupant_names(c(3, 3)), vec!["Wall"]);
    assert_eq!(g.occupant_names(c(0, 1)).len(), 0);
    assert_eq!(g.occupant_names(c(i32::MIN, i32::MAX)).len(), 0);
}

#[test]
fn new_game_places_the_player_at_the_origin() {
    let g = Game::new();
    assert_eq!(g.player_pos(), Some(c(0, 0)));
    assert!(matches!(g.state, ControlState::Player));
    let r = g.world.renderable(g.player).expect("player is renderable");
    assert_eq!(r.char, '@');
    assert_eq!(r.color, [0, 255, 0]);
    assert!(!g.world.blocks_moving(g.player));
    assert_eq!(g.world.name(g.player).unwrap().0, "Player");
    // the seed creature sits at (1,2) with its full appearance and label
    let mut found_creature = false;
    for id in 0..g.world.num_entities() {
        let e = Entity(id);
        if g.world.position(e) == Some(Position(c(1, 2))) {
            let r = g.world.renderable(e).expect("creature is renderable");
            if r.char == 'A' {
                assert_eq!(r.color, [255, 0, 0]);
                assert_eq!(g.world.name(e).expect("creature is named").0, "Enemy A");
                found_creature = true;
            }
        }
    }
    assert!(found_creature);
}
