pub mod move_mode;
