pub mod env;
pub mod error;
pub mod find;
pub mod ids;
pub mod laws;
pub mod layout;
pub mod reg;
pub mod reg_types;
pub mod stack_laws;
pub mod stack_state;
pub mod state;
pub mod tnum;
pub mod type_laws;
