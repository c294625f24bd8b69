pub mod engine;
pub mod grid;
