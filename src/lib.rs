//! Game rules of a top-down survival shooter: player health, terrain chunk
//! generation and streaming, enemy waves, directional animation and the
//! music playlist. The engine that renders and runs these rules lives
//! outside this library.

pub mod config;
pub mod grid;
pub mod tile;
pub mod rolls;
pub mod ground;
pub mod chunk_gen;
pub mod settle;
pub mod chunks;
pub mod terrain;

pub mod health;
pub mod animation;
pub mod player;
pub mod enemy;
pub mod hud;
pub mod audio;
pub mod state;
