pub mod game;
pub mod x01;
