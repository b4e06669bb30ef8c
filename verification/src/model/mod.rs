pub mod controls;
pub mod game_objects;
