pub mod data;
pub mod errors;
pub mod env;
pub mod ast;
pub mod completion;
pub mod stream;
pub mod sort;
pub mod printer;
pub mod job;
pub mod closure;
