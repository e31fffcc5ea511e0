pub mod terrain;
