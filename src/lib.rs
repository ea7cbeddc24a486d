pub mod orientation;
pub mod grid;
pub mod text;
pub mod random;
pub mod codec;
pub mod shuffle;
pub mod solvability;
pub mod input;
pub mod player;
pub mod animator;
pub mod game;
pub mod duration;
pub mod ui;
pub mod network;
