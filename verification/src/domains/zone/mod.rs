pub mod dbm;
pub mod exact;
pub mod history;
pub mod laws;
pub mod ops;
pub mod render;
pub mod stored;
pub mod trace;
