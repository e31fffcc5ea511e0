pub mod commands;
pub mod selection;
pub mod terrain;
