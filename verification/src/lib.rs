pub mod ast;
pub mod batch;
pub mod benchmark;
pub mod classic;
pub mod cli;
pub mod common;
pub mod compact;
pub mod domains;
pub mod laws;
pub mod machine;
pub mod num;
pub mod options;
pub mod parsing;
pub mod shown;
pub mod sums;
pub mod text;
pub mod tokens;
pub mod transfer;
