pub mod laws;
pub mod ops;
pub mod state;
