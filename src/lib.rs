//! Simulation core of a small 2D game: geometry, components, an entity and
//! component store, the per-frame systems and their scheduler.

pub mod direction;
pub mod geometry;
pub mod components;
pub mod resources;
pub mod movement;
pub mod keyboard;
pub mod ai;
pub mod animator;
pub mod random;
pub mod win_lose;
pub mod storage;
pub mod world;
pub mod systems;
pub mod scheduler;
pub mod dispatcher;
pub mod input;
pub mod level;
