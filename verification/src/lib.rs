//! Drive an external compiler and a bitcode toolchain to turn Rust source
//! into a PTX assembly module for the NVPTX target.

pub mod bitcode;
pub mod compile;
pub mod config;
pub mod driver;
pub mod error;
mod json;
pub mod manifest;
pub mod text;
pub mod toolchain;

pub use bitcode::{get_ptx_functions, FunctionInfo, FunctionRole};
pub use driver::Driver;
pub use error::{err_msg, CompileError, Logging, Step};
pub use toolchain::get_compiler_rt;
