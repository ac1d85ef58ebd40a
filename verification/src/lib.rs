//! The rules of a small side-scrolling arcade game: a scrolling background,
//! a falling player, pipes that arrive on a timer, collisions between
//! them, and the bookkeeping of images that load while the game runs.

pub mod asset;
pub mod background;
pub mod compat;
pub mod enemy;
pub mod geom;
pub mod object;
pub mod player;
pub mod scene;
