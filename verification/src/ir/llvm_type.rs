//! The types the evaluator uses.

use vstd::prelude::*;
use crate::ir::backend::{FunctionType, FunctionTypeView, IrType};

verus! {

/// The 8-bit integer type.
pub fn int8_type() -> (r: IrType)
    ensures
        r == IrType::Int8,
{
    IrType::Int8
}

/// The 32-bit integer type: the type of every number in emitted code.
pub fn int32_type() -> (r: IrType)
    ensures
        r == IrType::Int32,
{
    IrType::Int32
}

/// The type of a pointer to an 8-bit integer.
pub fn pointer_type() -> (r: IrType)
    ensures
        r == IrType::Pointer,
{
    IrType::Pointer
}

/// The type of a function with exactly the parameters `args`.
pub fn function_type(ret_type: IrType, args: Vec<IrType>) -> (r: FunctionType)
    ensures
        r@ == (FunctionTypeView { ret: ret_type, params: args@, var_arg: false }),
{
    FunctionType { ret: ret_type, params: args, var_arg: false }
}

/// The type of a variadic function whose fixed parameters are `args`.
pub fn function_type_var_arg(ret_type: IrType, args: Vec<IrType>) -> (r: FunctionType)
    ensures
        r@ == (FunctionTypeView { ret: ret_type, params: args@, var_arg: true }),
{
    FunctionType { ret: ret_type, params: args, var_arg: true }
}

} // verus!
