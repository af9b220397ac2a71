pub mod alu;
pub mod analyze;
pub mod ast;
pub mod bpf_to_ast;
pub mod branch;
pub mod cert;
pub mod certified;
pub mod check;
pub mod context;
pub mod ctx_model;
pub mod domain;
pub mod example;
pub mod exec;
pub mod isa;
pub mod memory;
pub mod precision;
pub mod safety;
pub mod soundness;
