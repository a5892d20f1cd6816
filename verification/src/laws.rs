//! Laws of the language, stated over the model of evaluation.

use vstd::prelude::*;
use crate::builtin::env::{EnvView, lookup};
use crate::builtin::ir::{all_numbers, input_strategy, lowered, materialized, number_values};
use crate::builtin::ops::{applied, combined, difference, product, quotient, scaled, sum};
use crate::eval::{called, evaluated, evaluated_args, is_arithmetic};
use crate::exp::{Builtin, ErrView, ExpView};
use crate::host::{HostNum, HostOp, ONE_BITS, ZERO_BITS, binary, fold_left};
use crate::ir::backend::{CallView, ValueRef, next_ref};
use crate::ir::operate::number_slot_calls;

verus! {

/// A fold over no numbers is its seed; over one more number it is one more
/// operation on the right.
pub proof fn law_fold_left(op: HostOp, seed: HostNum, xs: Seq<HostNum>, x: HostNum)
    ensures
        fold_left(op, seed, Seq::empty()) == seed,
        fold_left(op, seed, xs.push(x)) == binary(op, fold_left(op, seed, xs), x),
{
    assert(xs.push(x).drop_last() =~= xs);
}

/// The sum of two numbers is `0.0 + a + b`.
pub proof fn law_sum_of_two(a: HostNum, b: HostNum)
    ensures
        sum(seq![a, b]) == binary(
            HostOp::Add,
            binary(HostOp::Add, HostNum::Lit(ZERO_BITS), a),
            b,
        ),
{
    let none = Seq::<HostNum>::empty();
    law_fold_left(HostOp::Add, HostNum::Lit(ZERO_BITS), none, a);
    law_fold_left(HostOp::Add, HostNum::Lit(ZERO_BITS), none.push(a), b);
    assert(seq![a, b] =~= none.push(a).push(b));
}

/// `(- a b)` is `a - (0.0 + b)`, and `(- a b c)` is `a - (0.0 + b + c)`: the
/// first number minus the sum of the others, not a running difference.
pub proof fn law_difference(a: HostNum, b: HostNum, c: HostNum)
    ensures
        difference(seq![a, b]) == binary(
            HostOp::Sub,
            a,
            binary(HostOp::Add, HostNum::Lit(ZERO_BITS), b),
        ),
        difference(seq![a, b, c]) == binary(
            HostOp::Sub,
            a,
            binary(HostOp::Add, binary(HostOp::Add, HostNum::Lit(ZERO_BITS), b), c),
        ),
{
    let none = Seq::<HostNum>::empty();
    law_fold_left(HostOp::Add, HostNum::Lit(ZERO_BITS), none, b);
    law_fold_left(HostOp::Add, HostNum::Lit(ZERO_BITS), none.push(b), c);
    assert(seq![a, b].skip(1) =~= none.push(b));
    assert(seq![a, b, c].skip(1) =~= none.push(b).push(c));
}

/// `(/ a b)` is `1.0 / a / b`, a left fold from `1.0`, and not `a / b`.
pub proof fn law_quotient_of_two(a: HostNum, b: HostNum)
    ensures
        quotient(seq![a, b]) == binary(
            HostOp::Div,
            binary(HostOp::Div, HostNum::Lit(ONE_BITS), a),
            b,
        ),
{
    let none = Seq::<HostNum>::empty();
    law_fold_left(HostOp::Div, HostNum::Lit(ONE_BITS), none, a);
    law_fold_left(HostOp::Div, HostNum::Lit(ONE_BITS), none.push(a), b);
    assert(seq![a, b] =~= none.push(a).push(b));
}

/// The product and the quotient of no numbers are `1.0`, and the sum is `0.0`.
pub proof fn law_empty_folds()
    ensures
        product(Seq::empty()) == HostNum::Lit(ONE_BITS),
        quotient(Seq::empty()) == HostNum::Lit(ONE_BITS),
        sum(Seq::empty()) == HostNum::Lit(ZERO_BITS),
{
}

/// `*` and `/` accept no arguments at all and then give `1.0`, while `+` and
/// `-` fail with an arity violation on fewer than two numbers, and emit
/// nothing.
pub proof fn law_arity(env: EnvView, args: Seq<ExpView>, handle: Option<ValueRef>)
    requires
        all_numbers(args),
        args.len() < 2,
    ensures
        applied(Builtin::Add, env, args, handle) == (Err::<ExpView, ErrView>(ErrView::Arity), env),
        applied(Builtin::Sub, env, args, handle) == (Err::<ExpView, ErrView>(ErrView::Arity), env),
        args.len() == 0 ==> applied(Builtin::Mul, env, args, handle) == scaled(
            env,
            args,
            HostNum::Lit(ONE_BITS),
            handle,
        ),
        args.len() == 0 ==> applied(Builtin::Div, env, args, handle) == scaled(
            env,
            args,
            HostNum::Lit(ONE_BITS),
            handle,
        ),
        args.len() == 0 ==> scaled(env, args, HostNum::Lit(ONE_BITS), None).0 == Ok::<
            ExpView,
            ErrView,
        >(ExpView::Number(HostNum::Lit(ONE_BITS), (next_ref(env.llvm), false))),
{
    if args.len() == 0 {
        assert(number_values(args) =~= Seq::empty());
    }
}

/// The argument evaluation pass over two number literals lowers the first,
/// then the second, and gives both, each backed by its own slot.
pub proof fn law_two_literals(
    env: EnvView,
    a: HostNum,
    ha: (ValueRef, bool),
    b: HostNum,
    hb: (ValueRef, bool),
)
    ensures
        ({
            let n = env.llvm.len();
            evaluated_args(seq![ExpView::Number(a, ha), ExpView::Number(b, hb)], env) == (
                Ok::<Seq<ExpView>, ErrView>(
                    seq![
                        ExpView::Number(a, (ValueRef::At(n as usize), false)),
                        ExpView::Number(b, (ValueRef::At((n + 3) as usize), false)),
                    ],
                ),
                env.emit_all(number_slot_calls(n, a, ""@) + number_slot_calls(n + 3, b, ""@)),
            )
        }),
{
    let n = env.llvm.len();
    let forms = seq![ExpView::Number(a, ha), ExpView::Number(b, hb)];
    let first = seq![ExpView::Number(a, ha)];
    let none = Seq::<ExpView>::empty();
    assert(forms.drop_last() =~= first);
    assert(first.drop_last() =~= none);
    assert(evaluated_args(none, env) == (Ok::<Seq<ExpView>, ErrView>(none), env));
    let env1 = lowered(env, a).1;
    assert(first.len() == 1);
    assert(first.last() == ExpView::Number(a, ha));
    assert(evaluated(first.last(), env) == (
        Ok::<ExpView, ErrView>(lowered(env, a).0),
        lowered(env, a).1,
    ));
    assert(evaluated_args(first.drop_last(), env) == (Ok::<Seq<ExpView>, ErrView>(none), env));
    assert(evaluated_args(first, env) == (
        Ok::<Seq<ExpView>, ErrView>(none.push(lowered(env, a).0)),
        env1,
    ));
    assert(env1.llvm.len() == n + 3);
    let env2 = lowered(env1, b).1;
    assert(env2.llvm =~= env.llvm + (number_slot_calls(n, a, ""@) + number_slot_calls(
        n + 3,
        b,
        ""@,
    )));
    assert(env2 == env.emit_all(number_slot_calls(n, a, ""@) + number_slot_calls(n + 3, b, ""@)));
    assert(forms.last() == ExpView::Number(b, hb));
    assert(evaluated(forms.last(), env1) == (Ok::<ExpView, ErrView>(lowered(env1, b).0), env2));
    assert(evaluated_args(forms, env) == (
        Ok::<Seq<ExpView>, ErrView>(none.push(lowered(env, a).0).push(lowered(env1, b).0)),
        env2,
    ));
    assert(none.push(lowered(env, a).0).push(lowered(env1, b).0) =~= seq![
        ExpView::Number(a, (ValueRef::At(n as usize), false)),
        ExpView::Number(b, (ValueRef::At((n + 3) as usize), false)),
    ]);
}

/// The calls that evaluating `(+ a b)` or `(- a b)` on two number literals
/// records on a recording of length `n`: each literal lowered to its slot, each
/// slot loaded, and the one instruction `last` that combines the two loads.
pub open spec fn pair_calls(n: nat, a: HostNum, b: HostNum, last: CallView) -> Seq<CallView> {
    number_slot_calls(n, a, ""@) + number_slot_calls(n + 3, b, ""@) + seq![
        CallView::Load { source: ValueRef::At(n as usize), name: ""@ },
        CallView::Load { source: ValueRef::At((n + 3) as usize), name: ""@ },
        last,
    ]
}

/// Evaluating `(+ a b)` on two number literals gives the sum `0.0 + a + b`,
/// materialized in the single add instruction that the evaluation emits; the
/// operands of that instruction are the loads of the two slots that hold the
/// literals.
pub proof fn law_addition(
    env: EnvView,
    a: HostNum,
    ha: (ValueRef, bool),
    b: HostNum,
    hb: (ValueRef, bool),
)
    requires
        lookup(env.data, "+"@) == Some(ExpView::Func("+"@, Builtin::Add)),
    ensures
        ({
            let n = env.llvm.len();
            let form = ExpView::List(
                seq![ExpView::Symbol("+"@), ExpView::Number(a, ha), ExpView::Number(b, hb)],
            );
            evaluated(form, env) == (
                Ok::<ExpView, ErrView>(
                    ExpView::Number(
                        binary(HostOp::Add, binary(HostOp::Add, HostNum::Lit(ZERO_BITS), a), b),
                        (ValueRef::At((n + 8) as usize), true),
                    ),
                ),
                env.emit_all(
                    pair_calls(
                        n,
                        a,
                        b,
                        CallView::Add {
                            lhs: ValueRef::At((n + 6) as usize),
                            rhs: ValueRef::At((n + 7) as usize),
                            name: "add_ret"@,
                        },
                    ),
                ),
            )
        }),
{
    let n = env.llvm.len();
    let list = seq![ExpView::Symbol("+"@), ExpView::Number(a, ha), ExpView::Number(b, hb)];
    let forms = seq![ExpView::Number(a, ha), ExpView::Number(b, hb)];
    assert(list.skip(1) =~= forms);
    law_two_literals(env, a, ha, b, hb);
    law_sum_of_two(a, b);
    let (args_eval, env2) = evaluated_args(forms, env);
    let args = args_eval->Ok_0;
    assert(number_values(args) =~= seq![a, b]);
    assert(env2.llvm.len() == n + 6);
    let (lhs, env3) = materialized(env2, args[0]);
    let (rhs, env4) = materialized(env3, args[1]);
    assert(env3.llvm.len() == n + 7);
    assert(env4.llvm.len() == n + 8);
    let last = CallView::Add { lhs, rhs, name: "add_ret"@ };
    assert(env4.emit(last).llvm =~= env.llvm + pair_calls(n, a, b, last));
    assert(env4.emit(last) == env.emit_all(pair_calls(n, a, b, last)));
    assert(lhs == ValueRef::At((n + 6) as usize));
    assert(rhs == ValueRef::At((n + 7) as usize));
    assert(all_numbers(args));
    assert(called(env, "+"@, Builtin::Add, forms) == combined(
        true,
        env2,
        args,
        sum(number_values(args)),
    ));
    assert(list[0] == ExpView::Symbol("+"@));
    assert(evaluated(list[0], env) == (
        Ok::<ExpView, ErrView>(ExpView::Func("+"@, Builtin::Add)),
        env,
    ));
    assert(evaluated(ExpView::List(list), env) == called(env, "+"@, Builtin::Add, list.skip(1)));
}

/// Evaluating `(- a b)` on two number literals gives `a - (0.0 + b)`,
/// materialized in the single subtract instruction that the evaluation emits.
pub proof fn law_subtraction(
    env: EnvView,
    a: HostNum,
    ha: (ValueRef, bool),
    b: HostNum,
    hb: (ValueRef, bool),
)
    requires
        lookup(env.data, "-"@) == Some(ExpView::Func("-"@, Builtin::Sub)),
    ensures
        ({
            let n = env.llvm.len();
            let form = ExpView::List(
                seq![ExpView::Symbol("-"@), ExpView::Number(a, ha), ExpView::Number(b, hb)],
            );
            evaluated(form, env) == (
                Ok::<ExpView, ErrView>(
                    ExpView::Number(
                        binary(HostOp::Sub, a, binary(HostOp::Add, HostNum::Lit(ZERO_BITS), b)),
                        (ValueRef::At((n + 8) as usize), true),
                    ),
                ),
                env.emit_all(
                    pair_calls(
                        n,
                        a,
                        b,
                        CallView::Sub {
                            lhs: ValueRef::At((n + 6) as usize),
                            rhs: ValueRef::At((n + 7) as usize),
                            name: "sub_ret"@,
                        },
                    ),
                ),
            )
        }),
{
    let n = env.llvm.len();
    let list = seq![ExpView::Symbol("-"@), ExpView::Number(a, ha), ExpView::Number(b, hb)];
    let forms = seq![ExpView::Number(a, ha), ExpView::Number(b, hb)];
    assert(list.skip(1) =~= forms);
    law_two_literals(env, a, ha, b, hb);
    law_difference(a, b, b);
    let (args_eval, env2) = evaluated_args(forms, env);
    let args = args_eval->Ok_0;
    assert(number_values(args) =~= seq![a, b]);
    assert(env2.llvm.len() == n + 6);
    let (lhs, env3) = materialized(env2, args[0]);
    let (rhs, env4) = materialized(env3, args[1]);
    assert(env3.llvm.len() == n + 7);
    assert(env4.llvm.len() == n + 8);
    let last = CallView::Sub { lhs, rhs, name: "sub_ret"@ };
    assert(env4.emit(last).llvm =~= env.llvm + pair_calls(n, a, b, last));
    assert(env4.emit(last) == env.emit_all(pair_calls(n, a, b, last)));
    assert(lhs == ValueRef::At((n + 6) as usize));
    assert(rhs == ValueRef::At((n + 7) as usize));
    assert(all_numbers(args));
    assert(called(env, "-"@, Builtin::Sub, forms) == combined(
        false,
        env2,
        args,
        difference(number_values(args)),
    ));
    assert(list[0] == ExpView::Symbol("-"@));
    assert(evaluated(list[0], env) == (
        Ok::<ExpView, ErrView>(ExpView::Func("-"@, Builtin::Sub)),
        env,
    ));
    assert(evaluated(ExpView::List(list), env) == called(env, "-"@, Builtin::Sub, list.skip(1)));
}

/// Evaluating the same number literal twice gives two numbers with the same
/// host value, each backed by a slot of its own: the second evaluation
/// reserves a new slot and leaves the calls that set up the first as they are.
pub proof fn law_literal_twice(env: EnvView, value: HostNum, handle: (ValueRef, bool))
    requires
        env.llvm.len() + 3 <= usize::MAX,
    ensures
        ({
            let (first, env1) = evaluated(ExpView::Number(value, handle), env);
            let (second, env2) = evaluated(ExpView::Number(value, handle), env1);
            &&& first matches Ok(ExpView::Number(v1, h1))
            &&& second matches Ok(ExpView::Number(v2, h2))
            &&& v1 == value
            &&& v2 == value
            &&& h1.0 != h2.0
            &&& !h1.1
            &&& !h2.1
            &&& h1.0 == next_ref(env.llvm)
            &&& h2.0 == next_ref(env1.llvm)
            &&& env2.llvm.subrange(0, env1.llvm.len() as int) == env1.llvm
        }),
{
    let (first, env1) = evaluated(ExpView::Number(value, handle), env);
    let (second, env2) = evaluated(ExpView::Number(value, handle), env1);
    assert(env1.llvm.len() == env.llvm.len() + 3);
    assert(env2.llvm.subrange(0, env1.llvm.len() as int) =~= env1.llvm);
}

/// Materializing is not remembered: a number that names a storage location is
/// loaded each time it is materialized, and each load is a value of its own. A
/// materialized number is used as it is, and nothing is emitted.
pub proof fn law_materialize_twice(env: EnvView, value: HostNum, reference: ValueRef)
    requires
        env.llvm.len() + 1 <= usize::MAX,
    ensures
        ({
            let stored = ExpView::Number(value, (reference, false));
            let (first, env1) = materialized(env, stored);
            let (second, env2) = materialized(env1, stored);
            &&& env2.llvm == env.llvm.push(
                CallView::Load { source: reference, name: ""@ },
            ).push(CallView::Load { source: reference, name: ""@ })
            &&& first == next_ref(env.llvm)
            &&& second == next_ref(env1.llvm)
            &&& first != second
        }),
        materialized(env, ExpView::Number(value, (reference, true))) == (reference, env),
{
}

/// Evaluating `(*)` gives `1.0`, lowered to a fresh slot, and evaluating `(+)`
/// is an arity violation that emits nothing.
pub proof fn law_empty_calls(env: EnvView)
    requires
        lookup(env.data, "*"@) == Some(ExpView::Func("*"@, Builtin::Mul)),
        lookup(env.data, "+"@) == Some(ExpView::Func("+"@, Builtin::Add)),
    ensures
        evaluated(ExpView::List(seq![ExpView::Symbol("*"@)]), env) == (
            Ok::<ExpView, ErrView>(lowered(env, HostNum::Lit(ONE_BITS)).0),
            lowered(env, HostNum::Lit(ONE_BITS)).1,
        ),
        evaluated(ExpView::List(seq![ExpView::Symbol("+"@)]), env) == (
            Err::<ExpView, ErrView>(ErrView::Arity),
            env,
        ),
{
    let none = Seq::<ExpView>::empty();
    let times = seq![ExpView::Symbol("*"@)];
    let plus = seq![ExpView::Symbol("+"@)];
    assert(times.skip(1) =~= none);
    assert(plus.skip(1) =~= none);
    assert(evaluated_args(none, env) == (Ok::<Seq<ExpView>, ErrView>(none), env));
    assert(number_values(none) =~= Seq::<HostNum>::empty());
    assert(evaluated(times[0], env) == (
        Ok::<ExpView, ErrView>(ExpView::Func("*"@, Builtin::Mul)),
        env,
    ));
    assert(evaluated(plus[0], env) == (
        Ok::<ExpView, ErrView>(ExpView::Func("+"@, Builtin::Add)),
        env,
    ));
    assert(called(env, "*"@, Builtin::Mul, none) == applied(Builtin::Mul, env, none, None));
    assert(called(env, "+"@, Builtin::Add, none) == applied(Builtin::Add, env, none, None));
}

/// Evaluating `(input)` when the next line spells no number gives `Null`, not
/// an error, and the line is read.
pub proof fn law_input_without_number(env: EnvView)
    requires
        lookup(env.data, "input"@) == Some(ExpView::Func("input"@, Builtin::Input)),
        env.consumed < env.inputs.len(),
        env.inputs[env.consumed as int] is None,
    ensures
        evaluated(ExpView::List(seq![ExpView::Symbol("input"@)]), env).0 == Ok::<
            ExpView,
            ErrView,
        >(ExpView::Null),
        evaluated(ExpView::List(seq![ExpView::Symbol("input"@)]), env).1.consumed
            == env.consumed + 1,
{
    let none = Seq::<ExpView>::empty();
    let list = seq![ExpView::Symbol("input"@)];
    assert(list.skip(1) =~= none);
    assert(evaluated_args(none, env) == (Ok::<Seq<ExpView>, ErrView>(none), env));
    assert(evaluated(list[0], env) == (
        Ok::<ExpView, ErrView>(ExpView::Func("input"@, Builtin::Input)),
        env,
    ));
    reveal_strlit("input");
    reveal_strlit("printf");
    reveal_strlit("+");
    reveal_strlit("-");
    reveal_strlit("*");
    reveal_strlit("/");
    assert("input"@.len() == 5);
    assert(!is_arithmetic("input"@));
    assert("input"@ != "printf"@);
    assert(called(env, "input"@, Builtin::Input, none) == input_strategy(env, Builtin::Input));
}

} // verus!
