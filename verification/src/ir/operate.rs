//! Instructions and constants.

use vstd::prelude::*;
use vstd::string::*;
use crate::builtin::env::RispEnv;
use crate::host::HostNum;
use crate::ir::backend::{
    Backend, BackendCall, CallView, FunctionType, IrType, ValueRef, next_ref,
};
use crate::ir::llvm_type::int32_type;
use crate::ir::string::const_int;

verus! {

/// Emits a return of `llvm_value`.
pub fn build_ret(builder: &mut Backend, llvm_value: ValueRef) -> (r: ValueRef)
    ensures
        final(builder)@ == old(builder)@.push(CallView::Ret { value: llvm_value }),
        r == next_ref(old(builder)@),
{
    builder.record(BackendCall::Ret { value: llvm_value })
}

/// The calls that take the address of the first element of the constant `base`,
/// on a recording of length `at`: two 32-bit zero constants, then the in-bounds
/// element address taken with them.
pub open spec fn const_gep_calls(at: nat, base: ValueRef) -> Seq<CallView> {
    seq![
        CallView::ConstInt { ty: IrType::Int32, value: 0 },
        CallView::ConstInt { ty: IrType::Int32, value: 0 },
        CallView::ConstGep {
            base,
            indices: seq![ValueRef::At(at as usize), ValueRef::At((at + 1) as usize)],
        },
    ]
}

/// The address of the first element of the constant `llvm_const_value`.
pub fn build_const_gep(context: &mut Backend, llvm_const_value: ValueRef) -> (r: ValueRef)
    ensures
        final(context)@ == old(context)@ + const_gep_calls(old(context)@.len(), llvm_const_value),
        r == ValueRef::At((old(context)@.len() + 2) as usize),
{
    let ghost before = context@;
    let first = const_int(context, int32_type(), 0);
    let second = const_int(context, int32_type(), 0);
    let mut indices: Vec<ValueRef> = Vec::new();
    indices.push(first);
    indices.push(second);
    proof {
        assert(indices@ =~= seq![first, second]);
    }
    let r = context.record(BackendCall::ConstGep { base: llvm_const_value, indices });
    proof {
        assert(context@ =~= before + const_gep_calls(before.len(), llvm_const_value));
    }
    r
}

/// Moves the insertion point to the end of `block`.
pub fn build_position_at_end(builder: &mut Backend, block: ValueRef)
    ensures
        final(builder)@ == old(builder)@.push(CallView::PositionAtEnd { block }),
{
    let _ = builder.record(BackendCall::PositionAtEnd { block });
}

/// Reserves a stack slot of type `llvm_type` and returns its address.
pub fn build_alloca(builder: &mut Backend, llvm_type: IrType, name: &str) -> (r: ValueRef)
    ensures
        final(builder)@ == old(builder)@.push(CallView::Alloca { ty: llvm_type, name: name@ }),
        r == next_ref(old(builder)@),
{
    builder.record(BackendCall::Alloca { ty: llvm_type, name: String::from_str(name) })
}

/// Emits a store of `value` to the location `target`.
pub fn build_store(builder: &mut Backend, value: ValueRef, target: ValueRef) -> (r: ValueRef)
    ensures
        final(builder)@ == old(builder)@.push(CallView::Store { value, target }),
        r == next_ref(old(builder)@),
{
    builder.record(BackendCall::Store { value, target })
}

/// Emits a load from the location `llvm_value` and returns the loaded value.
pub fn build_load(builder: &mut Backend, llvm_value: ValueRef, name: &str) -> (r: ValueRef)
    ensures
        final(builder)@ == old(builder)@.push(
            CallView::Load { source: llvm_value, name: name@ },
        ),
        r == next_ref(old(builder)@),
{
    builder.record(BackendCall::Load { source: llvm_value, name: String::from_str(name) })
}

/// Emits the addition of `lhs` and `rhs` and returns the sum.
pub fn build_add(builder: &mut Backend, lhs: ValueRef, rhs: ValueRef, name: &str) -> (r: ValueRef)
    ensures
        final(builder)@ == old(builder)@.push(CallView::Add { lhs, rhs, name: name@ }),
        r == next_ref(old(builder)@),
{
    builder.record(BackendCall::Add { lhs, rhs, name: String::from_str(name) })
}

/// Emits the subtraction of `rhs` from `lhs` and returns the difference.
pub fn build_sub(builder: &mut Backend, lhs: ValueRef, rhs: ValueRef, name: &str) -> (r: ValueRef)
    ensures
        final(builder)@ == old(builder)@.push(CallView::Sub { lhs, rhs, name: name@ }),
        r == next_ref(old(builder)@),
{
    builder.record(BackendCall::Sub { lhs, rhs, name: String::from_str(name) })
}

/// The 32-bit integer constant that the host number `value` converts to.
pub fn build_int32_value(context: &mut Backend, value: &HostNum) -> (r: ValueRef)
    ensures
        final(context)@ == old(context)@.push(CallView::ConstNumber { value: *value }),
        r == next_ref(old(context)@),
{
    context.record(BackendCall::ConstNumber { value: value.duplicate() })
}

/// The calls that put the host number `value` into a fresh 32-bit stack slot
/// named `name`, on a recording of length `at`: the slot, the constant, the
/// store of the constant to the slot.
pub open spec fn number_slot_calls(at: nat, value: HostNum, name: Seq<char>) -> Seq<CallView> {
    seq![
        CallView::Alloca { ty: IrType::Int32, name },
        CallView::ConstNumber { value },
        CallView::Store {
            value: ValueRef::At((at + 1) as usize),
            target: ValueRef::At(at as usize),
        },
    ]
}

/// Reserves a 32-bit stack slot named `name`, stores the host number `value`
/// to it and returns the slot.
pub fn llvm_int_value(env: &mut RispEnv, name: &str, value: &HostNum) -> (r: ValueRef)
    ensures
        final(env)@ == old(env)@.emit_all(
            number_slot_calls(old(env)@.llvm.len(), *value, name@),
        ),
        r == next_ref(old(env)@.llvm),
{
    let ghost before = env@.llvm;
    let val = build_alloca(&mut env.llvm, int32_type(), name);
    let constant = build_int32_value(&mut env.llvm, value);
    let _ = build_store(&mut env.llvm, constant, val);
    proof {
        assert(env@.llvm =~= before + number_slot_calls(before.len(), *value, name@));
    }
    val
}

/// Declares the function `name` of type `function_type` in the module.
pub fn add_function(target_module: &mut Backend, function_type: FunctionType, name: &str) -> (r:
    ValueRef)
    ensures
        final(target_module)@ == old(target_module)@.push(
            CallView::AddFunction { ty: function_type@, name: name@ },
        ),
        r == next_ref(old(target_module)@),
{
    target_module.record(
        BackendCall::AddFunction { ty: function_type, name: String::from_str(name) },
    )
}

/// Emits a call of `function` with `args` and returns its result.
pub fn call_function(
    builder: &mut Backend,
    function: ValueRef,
    args: Vec<ValueRef>,
    name: &str,
) -> (r: ValueRef)
    ensures
        final(builder)@ == old(builder)@.push(
            CallView::Call { function, args: args@, name: name@ },
        ),
        r == next_ref(old(builder)@),
{
    builder.record(BackendCall::Call { function, args, name: String::from_str(name) })
}

} // verus!
