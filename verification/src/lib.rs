//! A small expression language whose evaluator computes each result on the host
//! and, in the same pass, records the backend instructions that recompute it.

pub mod builtin;
pub mod eval;
pub mod exp;
pub mod host;
pub mod ir;
pub mod laws;
pub mod progress;
pub mod reader;
pub mod references;
pub mod roundtrip;

pub use builtin::env::{create_input_fn, create_printf, default_env, RispEnv};
pub use eval::{eval, eval_function, get_symbol, parse_eval};
pub use exp::{Builtin, RispErr, RispExp};
pub use ir::llvm_type::function_type_var_arg;
pub use reader::{parse, parse_atom, read_seq, tokenize, Token};
