//! The built-in operations.
//!
//! An operation takes the context, the evaluated arguments and, where the
//! caller has already emitted for it, a backend reference. It computes the host
//! value, emits what is left to emit, and returns the value or fails.

use vstd::prelude::*;
use vstd::slice::*;
use crate::builtin::env::{EnvView, RispEnv, output_view};
use crate::builtin::ir::{
    all_numbers, eval_number, load_llvm_value, lowered, materialized, number_values,
    parse_list_of_floats,
};
use crate::exp::{Builtin, ErrView, ExpView, RispErr, RispExp, lemma_views, outcome, views};
use crate::host::{HostNum, HostOp, ONE_BITS, ZERO_BITS, binary, fold, fold_left};
use crate::ir::backend::{CallView, ValueRef, next_ref};
use crate::ir::operate::{build_add, build_sub};

verus! {

/// The sum of `values`: the left fold of addition from `0.0`.
pub open spec fn sum(values: Seq<HostNum>) -> HostNum {
    fold_left(HostOp::Add, HostNum::Lit(ZERO_BITS), values)
}

/// The first of `values` minus the sum of the others.
pub open spec fn difference(values: Seq<HostNum>) -> HostNum {
    binary(HostOp::Sub, values[0], sum(values.skip(1)))
}

/// The product of `values`: the left fold of multiplication from `1.0`.
pub open spec fn product(values: Seq<HostNum>) -> HostNum {
    fold_left(HostOp::Mul, HostNum::Lit(ONE_BITS), values)
}

/// The left fold of division over `values` from `1.0`: `1.0 / v0 / v1 / ...`.
pub open spec fn quotient(values: Seq<HostNum>) -> HostNum {
    fold_left(HostOp::Div, HostNum::Lit(ONE_BITS), values)
}

/// The instruction that `+` (`adding`) or `-` emits for the operands `lhs` and
/// `rhs`.
pub open spec fn pair_call(adding: bool, lhs: ValueRef, rhs: ValueRef) -> CallView {
    if adding {
        CallView::Add { lhs, rhs, name: "add_ret"@ }
    } else {
        CallView::Sub { lhs, rhs, name: "sub_ret"@ }
    }
}

/// `+` and `-` on `args` with host value `value`: a type mismatch unless every
/// argument is a number, else an arity violation unless there are two. Then the
/// first two arguments are materialized, in order, one instruction combines
/// them, and the result is `value`, materialized in that instruction. Further
/// arguments count in `value` only.
pub open spec fn combined(adding: bool, env: EnvView, args: Seq<ExpView>, value: HostNum) -> (
    Result<ExpView, ErrView>,
    EnvView,
) {
    if !all_numbers(args) {
        (Err(ErrView::TypeMismatch), env)
    } else if args.len() < 2 {
        (Err(ErrView::Arity), env)
    } else {
        let (lhs, env1) = materialized(env, args[0]);
        let (rhs, env2) = materialized(env1, args[1]);
        (
            Ok(ExpView::Number(value, (next_ref(env2.llvm), true))),
            env2.emit(pair_call(adding, lhs, rhs)),
        )
    }
}

/// `*` and `/` on `args` with host value `value`: a type mismatch unless every
/// argument is a number. Nothing is emitted for the operation itself: with a
/// reference supplied the result is `value`, materialized in that reference;
/// without one, `value` is lowered to a fresh slot.
pub open spec fn scaled(
    env: EnvView,
    args: Seq<ExpView>,
    value: HostNum,
    handle: Option<ValueRef>,
) -> (Result<ExpView, ErrView>, EnvView) {
    if !all_numbers(args) {
        (Err(ErrView::TypeMismatch), env)
    } else {
        match handle {
            Some(l_ref) => (Ok(ExpView::Number(value, (l_ref, true))), env),
            None => (Ok(lowered(env, value).0), lowered(env, value).1),
        }
    }
}

/// `printf` on `args`: the first argument, unchanged, which is also written to
/// the output; `Null`, and nothing written, where there is no argument.
pub open spec fn printed(env: EnvView, args: Seq<ExpView>) -> (Result<ExpView, ErrView>, EnvView) {
    if args.len() == 0 {
        (Ok(ExpView::Null), env)
    } else {
        (Ok(args[0]), EnvView { output: env.output.push(args[0]), ..env })
    }
}

/// `input` with the storage location `handle`: fails without a location, and
/// where no unread line is left. Else it reads the next line: a line that
/// spells a number gives that number, unmaterialized, backed by the location;
/// any other line gives `Null`.
pub open spec fn read(env: EnvView, handle: Option<ValueRef>) -> (
    Result<ExpView, ErrView>,
    EnvView,
) {
    match handle {
        None => (Err(ErrView::MissingSlot), env),
        Some(slot) => if env.consumed >= env.inputs.len() {
            (Err(ErrView::InputExhausted), env)
        } else {
            (
                Ok(
                    match env.inputs[env.consumed as int] {
                        Some(bits) => ExpView::Number(HostNum::Lit(bits), (slot, false)),
                        None => ExpView::Null,
                    },
                ),
                EnvView { consumed: env.consumed + 1, ..env },
            )
        },
    }
}

/// The operation `op` applied in `env` to the evaluated arguments `args`, with
/// the reference `handle` supplied by the caller: the outcome and the context
/// after it.
pub open spec fn applied(
    op: Builtin,
    env: EnvView,
    args: Seq<ExpView>,
    handle: Option<ValueRef>,
) -> (Result<ExpView, ErrView>, EnvView) {
    match op {
        Builtin::Add => combined(true, env, args, sum(number_values(args))),
        Builtin::Sub => combined(false, env, args, difference(number_values(args))),
        Builtin::Mul => scaled(env, args, product(number_values(args)), handle),
        Builtin::Div => scaled(env, args, quotient(number_values(args)), handle),
        Builtin::Printf => printed(env, args),
        Builtin::Input => read(env, handle),
    }
}

/// `+`: the sum of the arguments. Emits one add of the first two.
pub fn builtin_add(env: &mut RispEnv, args: &[RispExp], _llvm_ref: Option<ValueRef>) -> (r: Result<
    RispExp,
    RispErr,
>)
    ensures
        (outcome(r), final(env)@) == applied(Builtin::Add, old(env)@, views(args@), _llvm_ref),
{
    let floats = match parse_list_of_floats(args) {
        Ok(values) => values,
        Err(error) => {
            return Err(error);
        },
    };
    let ret = fold(HostOp::Add, HostNum::zero(), floats.as_slice());
    if args.len() < 2 {
        proof {
            lemma_views(args@);
        }
        return Err(RispErr::Arity);
    }
    proof {
        lemma_views(args@);
    }
    let arg1 = load_llvm_value(env, &args[0]);
    let arg2 = load_llvm_value(env, &args[1]);
    let llvm_ref = build_add(&mut env.llvm, arg1, arg2, "add_ret");
    Ok(RispExp::Number(ret, (llvm_ref, true)))
}

/// `-`: the first argument minus the sum of the others. Emits one subtract of
/// the first two.
pub fn builtin_sub(env: &mut RispEnv, args: &[RispExp], _llvm_ref: Option<ValueRef>) -> (r: Result<
    RispExp,
    RispErr,
>)
    ensures
        (outcome(r), final(env)@) == applied(Builtin::Sub, old(env)@, views(args@), _llvm_ref),
{
    let floats = match parse_list_of_floats(args) {
        Ok(values) => values,
        Err(error) => {
            return Err(error);
        },
    };
    proof {
        lemma_views(args@);
    }
    if args.len() < 2 {
        return Err(RispErr::Arity);
    }
    let first = floats[0].duplicate();
    let rest = slice_subrange(floats.as_slice(), 1, floats.len());
    let s_rest = fold(HostOp::Add, HostNum::zero(), rest);
    proof {
        assert(rest@ =~= floats@.skip(1));
    }
    let ret = first.apply(HostOp::Sub, s_rest);
    let arg1 = load_llvm_value(env, &args[0]);
    let arg2 = load_llvm_value(env, &args[1]);
    let llvm_ref = build_sub(&mut env.llvm, arg1, arg2, "sub_ret");
    Ok(RispExp::Number(ret, (llvm_ref, true)))
}

/// `*`: the product of the arguments. Emits nothing of its own.
pub fn builtin_mul(env: &mut RispEnv, args: &[RispExp], llvm_ref: Option<ValueRef>) -> (r: Result<
    RispExp,
    RispErr,
>)
    ensures
        (outcome(r), final(env)@) == applied(Builtin::Mul, old(env)@, views(args@), llvm_ref),
{
    let floats = match parse_list_of_floats(args) {
        Ok(values) => values,
        Err(error) => {
            return Err(error);
        },
    };
    let ret = fold(HostOp::Mul, HostNum::one(), floats.as_slice());
    Ok(
        match llvm_ref {
            Some(l_ref) => RispExp::Number(ret, (l_ref, true)),
            None => eval_number(env, ret),
        },
    )
}

/// `/`: `1.0` divided by each argument in turn. Emits nothing of its own.
pub fn builtin_div(env: &mut RispEnv, args: &[RispExp], llvm_ref: Option<ValueRef>) -> (r: Result<
    RispExp,
    RispErr,
>)
    ensures
        (outcome(r), final(env)@) == applied(Builtin::Div, old(env)@, views(args@), llvm_ref),
{
    let floats = match parse_list_of_floats(args) {
        Ok(values) => values,
        Err(error) => {
            return Err(error);
        },
    };
    let ret = fold(HostOp::Div, HostNum::one(), floats.as_slice());
    Ok(
        match llvm_ref {
            Some(l_ref) => RispExp::Number(ret, (l_ref, true)),
            None => eval_number(env, ret),
        },
    )
}

/// `printf`: returns its first argument and writes it to the output.
pub fn builtin_printf(env: &mut RispEnv, args: &[RispExp], _llvm_ref: Option<ValueRef>) -> (r:
    Result<RispExp, RispErr>)
    ensures
        (outcome(r), final(env)@) == applied(
            Builtin::Printf,
            old(env)@,
            views(args@),
            _llvm_ref,
        ),
{
    proof {
        lemma_views(args@);
    }
    if args.len() == 0 {
        Ok(RispExp::Null)
    } else {
        let arg = &args[0];
        env.output.push(arg.duplicate());
        proof {
            assert(output_view(env.output@) =~= output_view(old(env).output@).push(arg@));
        }
        Ok(arg.duplicate())
    }
}

/// `input`: the number on the next input line, backed by the location
/// `llvm_ref`; `Null` where the line spells no number.
pub fn builtin_input(env: &mut RispEnv, _args: &[RispExp], llvm_ref: Option<ValueRef>) -> (r:
    Result<RispExp, RispErr>)
    ensures
        (outcome(r), final(env)@) == applied(
            Builtin::Input,
            old(env)@,
            views(_args@),
            llvm_ref,
        ),
{
    match llvm_ref {
        None => Err(RispErr::MissingSlot),
        Some(slot) => {
            if env.consumed >= env.inputs.len() {
                Err(RispErr::InputExhausted)
            } else {
                let line = env.inputs[env.consumed];
                env.consumed = env.consumed + 1;
                Ok(
                    match line {
                        Some(bits) => RispExp::Number(HostNum::Lit(bits), (slot, false)),
                        None => RispExp::Null,
                    },
                )
            }
        },
    }
}

/// Applies the operation `op`.
pub fn apply_builtin(
    op: Builtin,
    env: &mut RispEnv,
    args: &[RispExp],
    llvm_ref: Option<ValueRef>,
) -> (r: Result<RispExp, RispErr>)
    ensures
        (outcome(r), final(env)@) == applied(op, old(env)@, views(args@), llvm_ref),
{
    match op {
        Builtin::Add => builtin_add(env, args, llvm_ref),
        Builtin::Sub => builtin_sub(env, args, llvm_ref),
        Builtin::Mul => builtin_mul(env, args, llvm_ref),
        Builtin::Div => builtin_div(env, args, llvm_ref),
        Builtin::Printf => builtin_printf(env, args, llvm_ref),
        Builtin::Input => builtin_input(env, args, llvm_ref),
    }
}

} // verus!
