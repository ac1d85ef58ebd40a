//! The game as a whole, and the holder through which the host drives it.

pub mod game;
pub mod system;
