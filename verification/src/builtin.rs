//! The generation context and the built-in operations.

pub mod env;
pub mod ir;
pub mod ops;
