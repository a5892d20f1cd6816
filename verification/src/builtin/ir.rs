//! Numbers between the host and the backend: wrapping, lowering and
//! materializing, and the numeric reading of argument lists.

use vstd::prelude::*;
use vstd::slice::*;
use crate::builtin::env::{EnvView, RispEnv};
use crate::builtin::ops::{applied, apply_builtin};
use crate::exp::{Builtin, ErrView, ExpView, RispErr, RispExp, lemma_views, outcome, views};
use crate::host::HostNum;
use crate::ir::backend::{CallView, IrType, ValueRef, next_ref};
use crate::ir::llvm_type::int32_type;
use crate::ir::operate::{
    build_alloca, build_int32_value, build_load, build_store, call_function, number_slot_calls,
};
use crate::ir::string::{codegen_string, string_calls};

verus! {

/// The number with host value `value` and backend handle `llvm_ref`.
pub fn wrap_llvm_value(value: HostNum, llvm_ref: (ValueRef, bool)) -> (r: RispExp)
    ensures
        r@ == ExpView::Number(value, llvm_ref),
{
    RispExp::Number(value, llvm_ref)
}

/// The backend reference of the number `exp`, as it stands: not loaded.
pub fn unwrap_object(exp: &RispExp) -> (r: ValueRef)
    requires
        exp@ is Number,
    ensures
        r == exp@->Number_1.0,
{
    match exp {
        RispExp::Number(_, handle) => handle.0,
        _ => ValueRef::Null,
    }
}

/// Materializing `exp` in `env`: the usable reference and the context after it.
/// A materialized number gives its reference and emits nothing; an
/// unmaterialized one emits a load from its location and gives the loaded
/// value; anything else gives the null reference.
pub open spec fn materialized(env: EnvView, exp: ExpView) -> (ValueRef, EnvView) {
    match exp {
        ExpView::Number(_, handle) => if handle.1 {
            (handle.0, env)
        } else {
            (next_ref(env.llvm), env.emit(CallView::Load { source: handle.0, name: ""@ }))
        },
        _ => (ValueRef::Null, env),
    }
}

/// Materializes `exp`: returns a reference that denotes its computed value,
/// loading it first where the handle names a storage location. Nothing is
/// remembered: materializing the same unmaterialized number again loads again.
pub fn load_llvm_value(env: &mut RispEnv, exp: &RispExp) -> (r: ValueRef)
    ensures
        (r, final(env)@) == materialized(old(env)@, exp@),
{
    match exp {
        RispExp::Number(_, value_ref) => {
            if !value_ref.1 {
                build_load(&mut env.llvm, value_ref.0, "")
            } else {
                value_ref.0
            }
        },
        _ => ValueRef::Null,
    }
}

/// Lowering the host number `value` in `env`: the number backed by a fresh
/// stack slot that holds it, unmaterialized, and the context after it.
pub open spec fn lowered(env: EnvView, value: HostNum) -> (ExpView, EnvView) {
    (
        ExpView::Number(value, (next_ref(env.llvm), false)),
        env.emit_all(number_slot_calls(env.llvm.len(), value, ""@)),
    )
}

/// Lowers the host number `f`: reserves a fresh stack slot, stores the constant
/// to it and returns the number as unmaterialized, backed by that slot.
pub fn eval_number(env: &mut RispEnv, f: HostNum) -> (r: RispExp)
    ensures
        (r@, final(env)@) == lowered(old(env)@, f),
{
    let ghost before = env@.llvm;
    let llvm_input = build_alloca(&mut env.llvm, int32_type(), "");
    let constant = build_int32_value(&mut env.llvm, &f);
    let _ = build_store(&mut env.llvm, constant, llvm_input);
    proof {
        assert(env@.llvm =~= before + number_slot_calls(before.len(), f, ""@));
    }
    RispExp::Number(f, (llvm_input, false))
}

/// Every item of `args` is a number.
pub open spec fn all_numbers(args: Seq<ExpView>) -> bool {
    forall|i: int| 0 <= i < args.len() ==> (#[trigger] args[i]) is Number
}

/// The host values of the numbers `args`, in order.
pub open spec fn number_values(args: Seq<ExpView>) -> Seq<HostNum> {
    Seq::new(args.len(), |i: int| args[i]->Number_0)
}

/// The host value of `exp`, which must be a number.
pub fn parse_single_float(exp: &RispExp) -> (r: Result<HostNum, RispErr>)
    ensures
        r is Ok <==> exp@ is Number,
        r matches Ok(value) ==> value == exp@->Number_0,
        r matches Err(error) ==> error@ == ErrView::TypeMismatch,
{
    match exp {
        RispExp::Number(num, _) => Ok(num.duplicate()),
        _ => Err(RispErr::TypeMismatch),
    }
}

/// The host values of `args`, in order; a type mismatch if any of them is not
/// a number.
pub fn parse_list_of_floats(args: &[RispExp]) -> (r: Result<Vec<HostNum>, RispErr>)
    ensures
        r is Ok <==> all_numbers(views(args@)),
        r matches Ok(values) ==> values@ == number_values(views(args@)),
        r matches Err(error) ==> error@ == ErrView::TypeMismatch,
{
    let mut values: Vec<HostNum> = Vec::new();
    let mut i: usize = 0;
    proof {
        lemma_views(args@);
    }
    while i < args.len()
        invariant
            i <= args.len(),
            values@.len() == i,
            views(args@).len() == args@.len(),
            forall|j: int| 0 <= j < args@.len() ==> (#[trigger] views(args@)[j]) == args@[j]@,
            forall|j: int| 0 <= j < i ==> (#[trigger] views(args@)[j]) is Number,
            forall|j: int| 0 <= j < i ==> (#[trigger] values@[j]) == views(args@)[j]->Number_0,
        decreases args.len() - i,
    {
        match parse_single_float(&args[i]) {
            Ok(value) => {
                values.push(value);
            },
            Err(error) => {
                proof {
                    assert(!(views(args@)[i as int] is Number));
                }
                return Err(error);
            },
        }
        i = i + 1;
    }
    proof {
        assert(values@ =~= number_values(views(args@)));
    }
    Ok(values)
}

/// The evaluated arguments of a call, by their views.
pub open spec fn args_outcome(args_eval: Result<Vec<RispExp>, RispErr>) -> Result<
    Seq<ExpView>,
    ErrView,
> {
    match args_eval {
        Ok(args) => Ok(views(args@)),
        Err(error) => Err(error@),
    }
}

/// The print strategy for the operation `op`. A failed argument evaluation is
/// passed on. Where the first argument is a number, a fixed sequence is emitted
/// first: a fresh 32-bit slot, the argument materialized, its value stored to
/// the slot and loaded back, the format string, and the call of the external
/// print function with the format and the loaded value. The operation is then
/// applied with the loaded value as its reference, or with the null reference
/// where nothing was emitted.
pub open spec fn print_strategy(
    env: EnvView,
    op: Builtin,
    args_eval: Result<Seq<ExpView>, ErrView>,
) -> (Result<ExpView, ErrView>, EnvView) {
    match args_eval {
        Err(error) => (Err(error), env),
        Ok(args) => if args.len() > 0 && args[0] is Number {
            let slot = next_ref(env.llvm);
            let env1 = env.emit(CallView::Alloca { ty: IrType::Int32, name: ""@ });
            let (value, env2) = materialized(env1, args[0]);
            let env3 = env2.emit(CallView::Store { value, target: slot });
            let loaded = next_ref(env3.llvm);
            let env4 = env3.emit(CallView::Load { source: slot, name: ""@ });
            let format = ValueRef::At((env4.llvm.len() + 8) as usize);
            let env5 = env4.emit_all(string_calls(env4.llvm.len(), "Result: %d\n"@, ""@));
            let env6 = env5.emit(
                CallView::Call {
                    function: env.builtin("printf"@)->Some_0,
                    args: seq![format, loaded],
                    name: ""@,
                },
            );
            applied(op, env6, args, Some(loaded))
        } else {
            applied(op, env, args, Some(ValueRef::Null))
        },
    }
}

/// Runs the print strategy and applies `func`.
pub fn eval_printf_fn(
    env: &mut RispEnv,
    func: &Builtin,
    args_eval: Result<Vec<RispExp>, RispErr>,
) -> (r: Result<RispExp, RispErr>)
    requires
        old(env)@.wf(),
    ensures
        (outcome(r), final(env)@) == print_strategy(old(env)@, *func, args_outcome(args_eval)),
{
    let args_eval = match args_eval {
        Ok(args) => args,
        Err(error) => {
            return Err(error);
        },
    };
    proof {
        lemma_views(args_eval@);
    }
    let mut llvm_val = ValueRef::Null;
    if args_eval.len() > 0 {
        if let RispExp::Number(_, _) = &args_eval[0] {
            let printf = env.builtin("printf").unwrap();
            let llvm_value = build_alloca(&mut env.llvm, int32_type(), "");
            let value = load_llvm_value(env, &args_eval[0]);
            let _ = build_store(&mut env.llvm, value, llvm_value);
            let print_int = build_load(&mut env.llvm, llvm_value, "");
            let format = codegen_string(env, "Result: %d\n", "");
            let mut printf_args: Vec<ValueRef> = Vec::new();
            printf_args.push(format);
            printf_args.push(print_int);
            proof {
                assert(printf_args@ =~= seq![format, print_int]);
            }
            let _ = call_function(&mut env.llvm, printf, printf_args, "");
            llvm_val = print_int;
        }
    }
    apply_builtin(*func, env, args_eval.as_slice(), Some(llvm_val))
}

/// The input strategy for the operation `op`: a fresh 32-bit slot named
/// `input`, the format string, and the call of the external scan function with
/// the format and the slot; then `op` applied to no arguments with the slot as
/// its reference.
pub open spec fn input_strategy(env: EnvView, op: Builtin) -> (Result<ExpView, ErrView>, EnvView) {
    let slot = next_ref(env.llvm);
    let env1 = env.emit(CallView::Alloca { ty: IrType::Int32, name: "input"@ });
    let format = ValueRef::At((env1.llvm.len() + 8) as usize);
    let env2 = env1.emit_all(string_calls(env1.llvm.len(), "%u"@, ""@));
    let env3 = env2.emit(
        CallView::Call {
            function: env.builtin("input"@)->Some_0,
            args: seq![format, slot],
            name: ""@,
        },
    );
    applied(op, env3, Seq::empty(), Some(slot))
}

/// Runs the input strategy and applies `func`.
pub fn eval_input_fn(env: &mut RispEnv, func: &Builtin) -> (r: Result<RispExp, RispErr>)
    requires
        old(env)@.wf(),
    ensures
        (outcome(r), final(env)@) == input_strategy(old(env)@, *func),
{
    let input_fn = env.builtin("input").unwrap();
    let llvm_input = build_alloca(&mut env.llvm, int32_type(), "input");
    let format = codegen_string(env, "%u", "");
    let mut input_args: Vec<ValueRef> = Vec::new();
    input_args.push(format);
    input_args.push(llvm_input);
    proof {
        assert(input_args@ =~= seq![format, llvm_input]);
    }
    let _ = call_function(&mut env.llvm, input_fn, input_args, "");
    let no_args: Vec<RispExp> = Vec::new();
    proof {
        assert(views(no_args@) =~= Seq::<ExpView>::empty());
    }
    apply_builtin(*func, env, no_args.as_slice(), Some(llvm_input))
}

/// The arithmetic strategy for the operation `op`: a failed argument evaluation
/// is passed on; else `op` is applied to the arguments with no reference
/// supplied.
pub open spec fn arithmetic_strategy(
    env: EnvView,
    op: Builtin,
    args_eval: Result<Seq<ExpView>, ErrView>,
) -> (Result<ExpView, ErrView>, EnvView) {
    match args_eval {
        Err(error) => (Err(error), env),
        Ok(args) => applied(op, env, args, None),
    }
}

/// Runs the arithmetic strategy and applies `func`.
pub fn eval_arithmetic(
    env: &mut RispEnv,
    _op: &str,
    func: &Builtin,
    args_eval: Result<Vec<RispExp>, RispErr>,
) -> (r: Result<RispExp, RispErr>)
    ensures
        (outcome(r), final(env)@) == arithmetic_strategy(
            old(env)@,
            *func,
            args_outcome(args_eval),
        ),
{
    match args_eval {
        Ok(risp_args) => apply_builtin(*func, env, risp_args.as_slice(), None),
        Err(error) => Err(error),
    }
}

} // verus!
