//! Game state and the commands that mutate it.
//!
//! One intent is applied at a time; movement is the sole mutation of game
//! state after initialization, and it is rejected whenever any occupant of
//! the destination cell carries the movement-blocking tag. A missing
//! player position makes every per-frame operation a silent no-op rather
//! than a panic.

use vstd::prelude::*;

use crate::coord::Coord;
use crate::tilemap::{grid_occupancy_matches, wall_props, TileMap};
use crate::world::{Entity, Name, Position, Renderable, World};

verus! {

/// The interaction mode: normal play, or inspecting a cell with a
/// selection cursor at an independent world coordinate. The cursor exists
/// only while selection mode is active, so an orphaned cursor is
/// unrepresentable.
#[derive(Clone, Copy, PartialEq, Eq, Structural, Debug)]
pub enum ControlState {
    Player,
    Selection(Coord),
}

/// The full game state: the entity store, the spatial index of walls, the
/// player's identifier and the interaction mode.
pub struct Game {
    pub player: Entity,
    pub map: TileMap,
    pub world: World,
    pub state: ControlState,
}

/// An input intent, delivered by the input-handling collaborator.
#[derive(Clone, Copy, PartialEq, Eq, Structural, Debug)]
pub enum Intent {
    MoveBy(Coord),
    ToggleSelectionMode,
    MoveCursorBy(Coord),
    Quit,
}

/// How a move by `delta` relates the state after (`post`) to the state
/// before (`pre`): the candidate cell is the current position plus the
/// delta; the move is dropped when the player has no position, when the
/// candidate is unrepresentable, or when any occupant of the candidate
/// cell blocks movement; otherwise exactly the player's position changes,
/// to the candidate.
pub open spec fn move_player_post(pre: Game, post: Game, delta: Coord) -> bool {
    &&& post.player == pre.player
    &&& post.map == pre.map
    &&& post.state == pre.state
    &&& post.world.n() == pre.world.n()
    &&& forall|e: Entity| e.0 != pre.player.0 ==> #[trigger] post.world.position_of(e)
        == pre.world.position_of(e)
    &&& forall|e: Entity| {
        &&& #[trigger] post.world.renderable_of(e) == pre.world.renderable_of(e)
        &&& post.world.name_of(e) == pre.world.name_of(e)
        &&& post.world.blocks(e) == pre.world.blocks(e)
    }
    &&& match pre.world.position_of(pre.player) {
        None => post.world == pre.world,
        Some(p) => {
            if !Coord::representable(p.0.x + delta.x, p.0.y + delta.y) {
                post.world == pre.world
            } else {
                let c = Coord { x: (p.0.x + delta.x) as i32, y: (p.0.y + delta.y) as i32 };
                if pre.blocked(c) {
                    post.world == pre.world
                } else {
                    post.world.position_of(pre.player) == Some(Position(c))
                }
            }
        },
    }
}

impl Game {
    pub open spec fn wf(self) -> bool {
        &&& self.world.wf()
        &&& self.map.wf()
    }

    /// Whether some occupant registered at `pos` carries the
    /// movement-blocking tag.
    pub open spec fn blocked(self, pos: Coord) -> bool {
        exists|i: int|
            0 <= i < self.map.lookup_spec(pos).len() && self.world.blocks(
                #[trigger] self.map.lookup_spec(pos)[i],
            )
    }

    /// Builds the initial world: the player at the origin, one seed
    /// creature, and a 1000 x 1000 spatial index populated with randomly
    /// placed wall structures of size 4.
    pub fn new() -> (g: Game)
        ensures
            g.wf(),
            g.state == ControlState::Player,
            g.world.position_of(g.player) == Some(Position(Coord { x: 0, y: 0 })),
            (g.world.renderable_of(g.player) matches Some(r) && r.char == '@' && r.color == [
                0u8,
                255u8,
                0u8,
            ]),
            (g.world.name_of(g.player) matches Some(n) && n.0@ == "Player"@),
            !g.world.blocks(g.player),
            g.map.width_spec() == 1000,
            g.map.height_spec() == 1000,
            forall|x: int, y: int|
                0 <= x < 1000 && 0 <= y < 1000 ==> (#[trigger] g.map.cell(x, y)).len() <= 1,
            forall|x: int, y: int|
                0 <= x < 1000 && 0 <= y < 1000 && (#[trigger] g.map.cell(x, y)).len() > 0
                    ==> wall_props(g.world, g.map.cell(x, y)[0], g.map.world_at(x, y)),
            exists|e: Entity|
                #[trigger] g.world.position_of(e) == Some(Position(Coord { x: 1, y: 2 }))
                    && (g.world.renderable_of(e) matches Some(r) && r.char == 'A' && r.color == [
                    255u8,
                    0u8,
                    0u8,
                ]) && (g.world.name_of(e) matches Some(n) && n.0@ == "Enemy A"@),
            exists|d: Seq<Seq<bool>>| grid_occupancy_matches(g.map, 1000, 1000, 4, d),
    {
        let mut world = World::new();
        let player = world.spawn(
            Some(Position(Coord { x: 0, y: 0 })),
            Some(Renderable { char: '@', color: [0, 255, 0] }),
            Some(Name("Player")),
            None,
        );
        let enemy = world.spawn(
            Some(Position(Coord { x: 1, y: 2 })),
            Some(Renderable { char: 'A', color: [255, 0, 0] }),
            Some(Name("Enemy A")),
            None,
        );
        let map = TileMap::grid(1000, 1000, 4, &mut world);
        let g = Game { player, map, world, state: ControlState::Player };
        proof {
            assert(g.world.position_of(enemy) == Some(Position(Coord { x: 1, y: 2 })));
            assert(g.world.renderable_of(enemy) matches Some(r) && r.char == 'A' && r.color == [
                255u8,
                0u8,
                0u8,
            ]);
            assert(g.world.name_of(enemy) matches Some(n) && n.0@ == "Enemy A"@);
            let d0 = choose|d: Seq<Seq<bool>>|
                grid_occupancy_matches(g.map, 1000usize as int, 1000usize as int, 4usize as int, d);
            assert(grid_occupancy_matches(g.map, 1000, 1000, 4, d0));
            assert(exists|d: Seq<Seq<bool>>| grid_occupancy_matches(g.map, 1000, 1000, 4, d));
        }
        g
    }

    /// The player's current position, or `None` for a player entity that
    /// lacks one.
    pub fn player_pos(&self) -> (r: Option<Coord>)
        ensures
            r == match self.world.position_of(self.player) {
                Some(p) => Some(p.0),
                None => None::<Coord>,
            },
    {
        match self.world.position(self.player) {
            Some(p) => Some(p.0),
            None => None,
        }
    }

    /// Attempts to move the player by `delta`; see `move_player_post`.
    pub fn move_player(&mut self, delta: Coord)
        requires
            old(self).wf(),
        ensures
            final(self).wf(),
            move_player_post(*old(self), *final(self), delta),
    {
        let pos = match self.world.position(self.player) {
            Some(p) => p,
            None => {
                return ;
            },
        };
        let candidate = match pos.0.checked_add(delta) {
            Some(c) => c,
            None => {
                return ;
            },
        };
        let occupants = self.map.get_tile(candidate);
        let mut found: bool = false;
        let mut i: usize = 0;
        while i < occupants.len()
            invariant
                i <= occupants@.len(),
                found == exists|j: int|
                    0 <= j < i && self.world.blocks(#[trigger] occupants@[j]),
            decreases occupants@.len() - i,
        {
            if self.world.blocks_moving(occupants[i]) {
                found = true;
            }
            i = i + 1;
        }
        if !found {
            proof {
                self.world.lemma_position_some_valid(self.player);
            }
            self.world.set_position(self.player, candidate);
        }
    }

    /// Applies one input intent and reports whether it asks to quit.
    ///
    /// `MoveBy` moves the player as `move_player_post` says. `ToggleSelectionMode`
    /// enters selection mode with the cursor at the player's position (a
    /// no-op for a player without one) or leaves it. `MoveCursorBy` moves
    /// the cursor, only in selection mode, dropping unrepresentable
    /// results. `Quit` changes nothing and reports true.
    pub fn apply_intent(&mut self, intent: Intent) -> (quit: bool)
        requires
            old(self).wf(),
        ensures
            final(self).wf(),
            match intent {
                Intent::MoveBy(delta) => !quit && move_player_post(
                    *old(self),
                    *final(self),
                    delta,
                ),
                Intent::ToggleSelectionMode => {
                    &&& !quit
                    &&& final(self).world == old(self).world
                    &&& final(self).map == old(self).map
                    &&& final(self).player == old(self).player
                    &&& match old(self).state {
                        ControlState::Player => match old(self).world.position_of(
                            old(self).player,
                        ) {
                            Some(p) => final(self).state == ControlState::Selection(p.0),
                            None => final(self).state == old(self).state,
                        },
                        ControlState::Selection(_) => final(self).state == ControlState::Player,
                    }
                },
                Intent::MoveCursorBy(delta) => {
                    &&& !quit
                    &&& final(self).world == old(self).world
                    &&& final(self).map == old(self).map
                    &&& final(self).player == old(self).player
                    &&& match old(self).state {
                        ControlState::Selection(c) => {
                            if Coord::representable(c.x + delta.x, c.y + delta.y) {
                                final(self).state == ControlState::Selection(
                                    Coord { x: (c.x + delta.x) as i32, y: (c.y + delta.y) as i32 },
                                )
                            } else {
                                final(self).state == old(self).state
                            }
                        },
                        ControlState::Player => final(self).state == old(self).state,
                    }
                },
                Intent::Quit => quit && *final(self) == *old(self),
            },
    {
        match intent {
            Intent::MoveBy(delta) => {
                self.move_player(delta);
                false
            },
            Intent::ToggleSelectionMode => {
                match self.state {
                    ControlState::Player => {
                        match self.player_pos() {
                            Some(p) => {
                                self.state = ControlState::Selection(p);
                            },
                            None => {},
                        }
                    },
                    ControlState::Selection(_) => {
                        self.state = ControlState::Player;
                    },
                }
                false
            },
            Intent::MoveCursorBy(delta) => {
                match self.state {
                    ControlState::Selection(c) => {
                        match c.checked_add(delta) {
                            Some(moved) => {
                                self.state = ControlState::Selection(moved);
                            },
                            None => {},
                        }
                    },
                    ControlState::Player => {},
                }
                false
            },
            Intent::Quit => true,
        }
    }

    /// The display names of the occupants of `pos`, in registration order;
    /// an occupant without a name is skipped.
    pub fn occupant_names(&self, pos: Coord) -> (r: Vec<&'static str>)
        requires
            self.wf(),
        ensures
            r@ == self.map.lookup_spec(pos).map_values(
                |e: Entity| self.world.name_of(e),
            ).filter(|o: Option<Name>| o is Some).map_values(|o: Option<Name>| (o->0).0),
    {
        let occupants = self.map.get_tile(pos);
        let mut r: Vec<&'static str> = Vec::new();
        let mut i: usize = 0;
        while i < occupants.len()
            invariant
                self.wf(),
                i <= occupants@.len(),
                occupants@ == self.map.lookup_spec(pos),
                r@ == occupants@.subrange(0, i as int).map_values(
                    |e: Entity| self.world.name_of(e),
                ).filter(|o: Option<Name>| o is Some).map_values(|o: Option<Name>| (o->0).0),
            decreases occupants@.len() - i,
        {
            match self.world.name(occupants[i]) {
                Some(n) => {
                    r.push(n.0);
                },
                None => {},
            }
            proof {
                let pre = occupants@.subrange(0, i as int);
                let cur = occupants@.subrange(0, i + 1);
                assert(cur.drop_last() =~= pre);
                reveal_with_fuel(Seq::filter, 2);
                assert(cur.map_values(|e: Entity| self.world.name_of(e)).drop_last() =~= pre
                    .map_values(|e: Entity| self.world.name_of(e)));
            }
            i = i + 1;
        }
        proof {
            assert(occupants@.subrange(0, occupants@.len() as int) =~= occupants@);
        }
        r
    }
}

/// An action object applied to the whole game state.
pub trait Command {
    fn execute(&self, game: &mut Game)
        requires
            old(game).wf(),
        ensures
            final(game).wf(),
    ;
}

/// Moves the player by the carried delta.
pub struct MovePlayer(pub Coord);

impl Command for MovePlayer {
    fn execute(&self, game: &mut Game)
        ensures
            move_player_post(*old(game), *final(game), self.0),
    {
        game.move_player(self.0);
    }
}

} // verus!
