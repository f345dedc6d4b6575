pub mod config;
pub mod game;
pub mod spawner;
pub mod tetriminos;
