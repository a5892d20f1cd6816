//! The backend: a recording of the calls made on an SSA-construction API.

pub mod backend;
pub mod block;
pub mod llvm_type;
pub mod operate;
pub mod scope;
pub mod string;
