pub mod asset;
pub mod error;
pub mod game_state;
pub mod math;
pub mod physics;
pub mod renderer;
