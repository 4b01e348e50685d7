pub mod animation;
mod chance;
pub mod collision;
pub mod controls;
pub mod game;
pub mod game_graphics;
pub mod game_physics;
pub mod game_state;
pub mod geometry;
pub mod menu;
pub mod object;
pub mod world;
