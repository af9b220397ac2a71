pub mod config;
pub mod constants;
pub mod ctx_laws;
pub mod ctx_model;
pub mod ctx_tables;
pub mod mem_region_model;
pub mod utils;
pub mod programs;
