//! Simulation core of a 2D tile-world sandbox game: deterministic chunked
//! terrain generation, a player physics controller with swept AABB collision
//! resolution, and a mining / drop / inventory interaction loop.
//!
//! All quantities that the game measures in fractional world units
//! (positions, velocities, health) are carried here as whole numbers of
//! milli-units, so that every computation is exact integer arithmetic with
//! proved bounds.

pub mod block;
pub mod blocks;
pub mod game;
pub mod impl_damage;
pub mod inventory;
pub mod item;
pub mod items;
pub mod num;
pub mod player;
pub mod render;
pub mod utils;
pub mod world;

pub use block::{Block, BlockName};
pub use player::{Player, GRAVITY_FORCE};
