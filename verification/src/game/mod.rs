pub mod combat;
pub mod commands;
pub mod labels;
pub mod player;
pub mod text;
pub mod world;
