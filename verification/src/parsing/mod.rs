pub mod bpf_insn;
pub mod btf;
pub mod elf_loader;
pub mod laws;
