//! Globals of the module.

use vstd::prelude::*;
use vstd::string::*;
use crate::ir::backend::{Backend, BackendCall, CallView, IrType, Linkage, ValueRef, next_ref};

verus! {

/// Declares a global of type `ty` and returns its reference.
pub fn add_global(module: &mut Backend, ty: IrType, name: &str) -> (r: ValueRef)
    ensures
        final(module)@ == old(module)@.push(CallView::AddGlobal { ty, name: name@ }),
        r == next_ref(old(module)@),
{
    module.record(BackendCall::AddGlobal { ty, name: String::from_str(name) })
}

/// The type of the constant at `value` in the recording `calls`; `None` where
/// `value` does not name a constant.
pub open spec fn constant_type(calls: Seq<CallView>, value: ValueRef) -> Option<IrType> {
    match value {
        ValueRef::Null => None,
        ValueRef::At(i) => if i < calls.len() {
            match calls[i as int] {
                CallView::ConstInt { ty, .. } => Some(ty),
                CallView::ConstNumber { .. } => Some(IrType::Int32),
                CallView::ConstString { bytes } => Some(IrType::Array(bytes.len() as usize)),
                _ => None,
            }
        } else {
            None
        },
    }
}

/// The type of the constant `value`.
pub fn type_of(context: &Backend, value: ValueRef) -> (r: Option<IrType>)
    ensures
        r == constant_type(context@, value),
{
    match value {
        ValueRef::Null => None,
        ValueRef::At(i) => {
            if i < context.calls.len() {
                match &context.calls[i] {
                    BackendCall::ConstInt { ty, .. } => Some(*ty),
                    BackendCall::ConstNumber { .. } => Some(IrType::Int32),
                    BackendCall::ConstString { bytes } => Some(IrType::Array(bytes.len())),
                    _ => None,
                }
            } else {
                None
            }
        },
    }
}

/// Sets the linkage of `global`.
pub fn set_linkage(module: &mut Backend, global: ValueRef, linkage: Linkage)
    ensures
        final(module)@ == old(module)@.push(CallView::SetLinkage { global, linkage }),
{
    let _ = module.record(BackendCall::SetLinkage { global, linkage });
}

/// Makes `value` the initial contents of `global`.
pub fn set_initializer(module: &mut Backend, global: ValueRef, value: ValueRef)
    ensures
        final(module)@ == old(module)@.push(CallView::SetInitializer { global, value }),
{
    let _ = module.record(BackendCall::SetInitializer { global, value });
}

/// Marks `global` as never written.
pub fn set_global_constant(module: &mut Backend, global: ValueRef)
    ensures
        final(module)@ == old(module)@.push(CallView::SetGlobalConstant { global }),
{
    let _ = module.record(BackendCall::SetGlobalConstant { global });
}

/// Marks the address of `global` as insignificant.
pub fn set_unnamed_address(module: &mut Backend, global: ValueRef)
    ensures
        final(module)@ == old(module)@.push(CallView::SetUnnamedAddress { global }),
{
    let _ = module.record(BackendCall::SetUnnamedAddress { global });
}

} // verus!
