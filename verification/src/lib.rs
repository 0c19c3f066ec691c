//! A terminal tile-world core: a spatial index over a fixed grid, an
//! entity/component store, a procedural wall generator, a camera-relative
//! viewport transform, and an autotiling renderer that draws into a
//! character-cell buffer.

pub mod coord;
pub mod game;
pub mod render;
pub mod rng;
pub mod tilemap;
pub mod world;

pub use coord::Coord;
pub use game::{Command, ControlState, Game, Intent, MovePlayer};
pub use render::{Camera, Cell, Rect, RenderContext, ScreenBuffer};
pub use tilemap::TileMap;
pub use world::{BlocksMoving, Entity, Name, Position, Renderable, World};
