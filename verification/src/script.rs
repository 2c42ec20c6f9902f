pub mod ast;
pub mod cli;
pub mod value;
pub mod clear;
pub mod dict;
pub mod engine;
pub mod error;
pub mod eval;
pub mod machine;
pub mod input;
pub mod output;
pub mod serve;
pub mod json;
