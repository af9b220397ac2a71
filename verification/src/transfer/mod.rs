pub mod access;
pub mod calls;
pub mod common;
pub mod dispatch;
pub mod effects;
pub mod exits;
pub mod fields;
pub mod map_access;
pub mod memory;
pub mod packet;
pub mod particulars;
pub mod pointers;
pub mod refinement;
pub mod safety;
pub mod stack;
pub mod step;
pub mod types;
pub mod typing;
