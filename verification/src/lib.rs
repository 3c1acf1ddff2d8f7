//! Game logic of the dart detection engine: dart shots, X01 rules and
//! turn-based game sessions, together with the integer side of the board
//! interpretation (sector order and ring multipliers).
pub mod dart_calculator;
pub mod dart_game;
pub mod dart_interpretor;
pub mod text;
pub mod game_manager;
