//! What evaluation never undoes.
//!
//! Whatever a form evaluates to, and whether or not it fails, the context only
//! moves forward: the recording grows at its end and the insertion point stays
//! in its block, input is read in order and never past its end, output grows at
//! its end, and the symbol table and the registry stay as they are.

use vstd::prelude::*;
use crate::builtin::env::EnvView;
use crate::builtin::ir::{
    arithmetic_strategy, input_strategy, lowered, materialized, number_values, print_strategy,
};
use crate::builtin::ops::{applied, pair_call, product, quotient};
use crate::eval::{called, dispatched, evaluated, evaluated_args};
use crate::exp::{Builtin, ErrView, ExpView};
use crate::host::HostNum;
use crate::ir::backend::{CallView, IrType, ValueRef, current_block, next_ref};
use crate::ir::operate::number_slot_calls;
use crate::ir::string::string_calls;
use crate::reader::{TokenView, parsed, parsed_items};

verus! {

/// None of `calls` moves the insertion point.
pub open spec fn stays_in_block(calls: Seq<CallView>) -> bool {
    forall|i: int| 0 <= i < calls.len() ==> !((#[trigger] calls[i]) is PositionAtEnd)
}

/// The context `after` continues the context `before`.
pub open spec fn follows(after: EnvView, before: EnvView) -> bool {
    &&& after.data == before.data
    &&& after.built_ins == before.built_ins
    &&& after.inputs == before.inputs
    &&& before.consumed <= after.consumed <= after.inputs.len()
    &&& before.llvm.len() <= after.llvm.len()
    &&& after.llvm == before.llvm + after.llvm.skip(before.llvm.len() as int)
    &&& stays_in_block(after.llvm.skip(before.llvm.len() as int))
    &&& before.output.len() <= after.output.len()
    &&& after.output == before.output + after.output.skip(before.output.len() as int)
}

/// Calls that do not move the insertion point leave the current block as it
/// is.
pub proof fn lemma_current_block_kept(calls: Seq<CallView>, more: Seq<CallView>)
    requires
        stays_in_block(more),
    ensures
        current_block(calls + more) == current_block(calls),
    decreases more.len(),
{
    if more.len() == 0 {
        assert(calls + more =~= calls);
    } else {
        let whole = calls + more;
        assert(whole.last() == more.last());
        assert(!(more[more.len() - 1] is PositionAtEnd));
        assert(whole.drop_last() =~= calls + more.drop_last());
        assert forall|i: int| 0 <= i < more.drop_last().len() implies !((
        #[trigger] more.drop_last()[i]) is PositionAtEnd) by {
            assert(more.drop_last()[i] == more[i]);
        }
        lemma_current_block_kept(calls, more.drop_last());
    }
}

/// A context that continues a usable one is usable, and its insertion point is
/// where it was.
pub proof fn lemma_follows_keeps(after: EnvView, before: EnvView)
    requires
        follows(after, before),
        before.wf(),
    ensures
        after.wf(),
        current_block(after.llvm) == current_block(before.llvm),
{
    lemma_current_block_kept(before.llvm, after.llvm.skip(before.llvm.len() as int));
}

/// A context continues itself.
pub proof fn lemma_follows_itself(env: EnvView)
    requires
        env.wf(),
    ensures
        follows(env, env),
{
    assert(env.llvm.skip(env.llvm.len() as int) =~= Seq::empty());
    assert(env.llvm =~= env.llvm + Seq::<CallView>::empty());
    assert(env.output.skip(env.output.len() as int) =~= Seq::empty());
    assert(env.output =~= env.output + Seq::<ExpView>::empty());
}

/// Continuing is transitive.
pub proof fn lemma_follows_chain(last: EnvView, middle: EnvView, first: EnvView)
    requires
        follows(last, middle),
        follows(middle, first),
    ensures
        follows(last, first),
{
    let a = first.llvm.len() as int;
    let b = middle.llvm.len() as int;
    assert(last.llvm.skip(a) =~= middle.llvm.skip(a) + last.llvm.skip(b));
    assert(last.llvm =~= first.llvm + last.llvm.skip(a));
    assert forall|i: int| 0 <= i < last.llvm.skip(a).len() implies !((
    #[trigger] last.llvm.skip(a)[i]) is PositionAtEnd) by {
        if i < b - a {
            assert(last.llvm.skip(a)[i] == middle.llvm.skip(a)[i]);
        } else {
            assert(last.llvm.skip(a)[i] == last.llvm.skip(b)[i - (b - a)]);
        }
    }
    let c = first.output.len() as int;
    let d = middle.output.len() as int;
    assert(last.output.skip(c) =~= middle.output.skip(c) + last.output.skip(d));
    assert(last.output =~= first.output + last.output.skip(c));
}

/// Recording calls that stay in the block continues the context.
pub proof fn lemma_follows_emit_all(env: EnvView, calls: Seq<CallView>)
    requires
        env.wf(),
        stays_in_block(calls),
    ensures
        follows(env.emit_all(calls), env),
{
    let after = env.emit_all(calls);
    assert(after.llvm.skip(env.llvm.len() as int) =~= calls);
    assert(after.output.skip(env.output.len() as int) =~= Seq::empty());
    assert(after.output =~= env.output + Seq::<ExpView>::empty());
}

/// Recording one call that stays in the block continues the context.
pub proof fn lemma_follows_emit(env: EnvView, call: CallView)
    requires
        env.wf(),
        !(call is PositionAtEnd),
    ensures
        follows(env.emit(call), env),
{
    assert(env.emit(call) == env.emit_all(seq![call])) by {
        assert(env.llvm.push(call) =~= env.llvm + seq![call]);
    }
    lemma_follows_emit_all(env, seq![call]);
}

/// Materializing continues the context.
pub proof fn lemma_materialized_follows(env: EnvView, exp: ExpView)
    requires
        env.wf(),
    ensures
        follows(materialized(env, exp).1, env),
{
    lemma_follows_itself(env);
    match exp {
        ExpView::Number(_, handle) => {
            if !handle.1 {
                lemma_follows_emit(env, CallView::Load { source: handle.0, name: ""@ });
            }
        },
        _ => {},
    }
}

/// Lowering a number continues the context.
pub proof fn lemma_lowered_follows(env: EnvView, value: HostNum)
    requires
        env.wf(),
    ensures
        follows(lowered(env, value).1, env),
{
    lemma_follows_emit_all(env, number_slot_calls(env.llvm.len(), value, ""@));
}

/// Defining a string continues the context.
pub proof fn lemma_string_follows(env: EnvView, text: Seq<char>, name: Seq<char>)
    requires
        env.wf(),
    ensures
        follows(env.emit_all(string_calls(env.llvm.len(), text, name)), env),
{
    lemma_follows_emit_all(env, string_calls(env.llvm.len(), text, name));
}

/// Applying an operation continues the context.
pub proof fn lemma_applied_follows(
    op: Builtin,
    env: EnvView,
    args: Seq<ExpView>,
    handle: Option<ValueRef>,
)
    requires
        env.wf(),
    ensures
        follows(applied(op, env, args, handle).1, env),
{
    lemma_follows_itself(env);
    let after = applied(op, env, args, handle).1;
    match op {
        Builtin::Add | Builtin::Sub => {
            if after != env {
                let (lhs, env1) = materialized(env, args[0]);
                lemma_materialized_follows(env, args[0]);
                lemma_follows_keeps(env1, env);
                let (rhs, env2) = materialized(env1, args[1]);
                lemma_materialized_follows(env1, args[1]);
                lemma_follows_keeps(env2, env1);
                lemma_follows_emit(env2, pair_call(op is Add, lhs, rhs));
                lemma_follows_chain(env2, env1, env);
                lemma_follows_chain(after, env2, env);
            }
        },
        Builtin::Mul => {
            lemma_lowered_follows(env, product(number_values(args)));
        },
        Builtin::Div => {
            lemma_lowered_follows(env, quotient(number_values(args)));
        },
        Builtin::Printf => {
            if args.len() > 0 {
                assert(after.output.skip(env.output.len() as int) =~= seq![args[0]]);
                assert(after.output =~= env.output + seq![args[0]]);
            }
        },
        Builtin::Input => {},
    }
}

/// The arithmetic strategy continues the context.
pub proof fn lemma_arithmetic_follows(
    env: EnvView,
    op: Builtin,
    args_eval: Result<Seq<ExpView>, ErrView>,
)
    requires
        env.wf(),
    ensures
        follows(arithmetic_strategy(env, op, args_eval).1, env),
{
    lemma_follows_itself(env);
    if let Ok(args) = args_eval {
        lemma_applied_follows(op, env, args, None);
    }
}

/// The print strategy continues the context.
pub proof fn lemma_print_follows(env: EnvView, op: Builtin, args_eval: Result<Seq<ExpView>, ErrView>)
    requires
        env.wf(),
    ensures
        follows(print_strategy(env, op, args_eval).1, env),
{
    lemma_follows_itself(env);
    if let Ok(args) = args_eval {
        if args.len() > 0 && args[0] is Number {
            let slot = next_ref(env.llvm);
            let env1 = env.emit(CallView::Alloca { ty: IrType::Int32, name: ""@ });
            lemma_follows_emit(env, CallView::Alloca { ty: IrType::Int32, name: ""@ });
            lemma_follows_keeps(env1, env);
            let (value, env2) = materialized(env1, args[0]);
            lemma_materialized_follows(env1, args[0]);
            lemma_follows_keeps(env2, env1);
            lemma_follows_chain(env2, env1, env);
            let env3 = env2.emit(CallView::Store { value, target: slot });
            lemma_follows_emit(env2, CallView::Store { value, target: slot });
            lemma_follows_keeps(env3, env2);
            lemma_follows_chain(env3, env2, env);
            let loaded = next_ref(env3.llvm);
            let env4 = env3.emit(CallView::Load { source: slot, name: ""@ });
            lemma_follows_emit(env3, CallView::Load { source: slot, name: ""@ });
            lemma_follows_keeps(env4, env3);
            lemma_follows_chain(env4, env3, env);
            let format = ValueRef::At((env4.llvm.len() + 8) as usize);
            let env5 = env4.emit_all(string_calls(env4.llvm.len(), "Result: %d\n"@, ""@));
            lemma_string_follows(env4, "Result: %d\n"@, ""@);
            lemma_follows_keeps(env5, env4);
            lemma_follows_chain(env5, env4, env);
            let call = CallView::Call {
                function: env.builtin("printf"@)->Some_0,
                args: seq![format, loaded],
                name: ""@,
            };
            let env6 = env5.emit(call);
            lemma_follows_emit(env5, call);
            lemma_follows_keeps(env6, env5);
            lemma_follows_chain(env6, env5, env);
            lemma_applied_follows(op, env6, args, Some(loaded));
            lemma_follows_chain(applied(op, env6, args, Some(loaded)).1, env6, env);
        } else {
            lemma_applied_follows(op, env, args, Some(ValueRef::Null));
        }
    }
}

/// The input strategy continues the context.
pub proof fn lemma_input_follows(env: EnvView, op: Builtin)
    requires
        env.wf(),
    ensures
        follows(input_strategy(env, op).1, env),
{
    let slot = next_ref(env.llvm);
    let env1 = env.emit(CallView::Alloca { ty: IrType::Int32, name: "input"@ });
    lemma_follows_emit(env, CallView::Alloca { ty: IrType::Int32, name: "input"@ });
    lemma_follows_keeps(env1, env);
    let format = ValueRef::At((env1.llvm.len() + 8) as usize);
    let env2 = env1.emit_all(string_calls(env1.llvm.len(), "%u"@, ""@));
    lemma_string_follows(env1, "%u"@, ""@);
    lemma_follows_keeps(env2, env1);
    lemma_follows_chain(env2, env1, env);
    let call = CallView::Call {
        function: env.builtin("input"@)->Some_0,
        args: seq![format, slot],
        name: ""@,
    };
    let env3 = env2.emit(call);
    lemma_follows_emit(env2, call);
    lemma_follows_keeps(env3, env2);
    lemma_follows_chain(env3, env2, env);
    lemma_applied_follows(op, env3, Seq::empty(), Some(slot));
    lemma_follows_chain(applied(op, env3, Seq::empty(), Some(slot)).1, env3, env);
}

/// Dispatching a call continues the context.
pub proof fn lemma_dispatched_follows(
    env: EnvView,
    name: Seq<char>,
    op: Builtin,
    args_eval: Result<Seq<ExpView>, ErrView>,
)
    requires
        env.wf(),
    ensures
        follows(dispatched(env, name, op, args_eval).1, env),
{
    lemma_follows_itself(env);
    lemma_arithmetic_follows(env, op, args_eval);
    lemma_print_follows(env, op, args_eval);
    lemma_input_follows(env, op);
}

/// Evaluating a form continues the context, whatever the outcome.
pub proof fn lemma_evaluated_follows(exp: ExpView, env: EnvView)
    requires
        env.wf(),
    ensures
        follows(evaluated(exp, env).1, env),
    decreases exp, 0nat,
{
    lemma_follows_itself(env);
    match exp {
        ExpView::Number(value, _) => {
            lemma_lowered_follows(env, value);
        },
        ExpView::List(list) => {
            if list.len() > 0 {
                let (first, env1) = evaluated(list[0], env);
                lemma_evaluated_follows(list[0], env);
                lemma_follows_keeps(env1, env);
                if let Ok(ExpView::Func(name, op)) = first {
                    lemma_called_follows(env1, name, op, list.skip(1));
                    lemma_follows_chain(called(env1, name, op, list.skip(1)).1, env1, env);
                }
            }
        },
        _ => {},
    }
}

/// The argument evaluation pass continues the context, whatever the outcome.
pub proof fn lemma_evaluated_args_follows(forms: Seq<ExpView>, env: EnvView)
    requires
        env.wf(),
    ensures
        follows(evaluated_args(forms, env).1, env),
    decreases forms, 0nat,
{
    lemma_follows_itself(env);
    if forms.len() > 0 {
        let (before, env1) = evaluated_args(forms.drop_last(), env);
        lemma_evaluated_args_follows(forms.drop_last(), env);
        lemma_follows_keeps(env1, env);
        if before is Ok {
            lemma_evaluated_follows(forms.last(), env1);
            lemma_follows_chain(evaluated(forms.last(), env1).1, env1, env);
        }
    }
}

/// A call continues the context, whatever the outcome.
pub proof fn lemma_called_follows(env: EnvView, name: Seq<char>, op: Builtin, forms: Seq<ExpView>)
    requires
        env.wf(),
    ensures
        follows(called(env, name, op, forms).1, env),
    decreases forms, 1nat,
{
    let (args, env1) = evaluated_args(forms, env);
    lemma_evaluated_args_follows(forms, env);
    lemma_follows_keeps(env1, env);
    lemma_dispatched_follows(env1, name, op, args);
    lemma_follows_chain(dispatched(env1, name, op, args).1, env1, env);
}

/// Reading a form continues the context, whatever the outcome.
pub proof fn lemma_parsed_follows(tokens: Seq<TokenView>, env: EnvView)
    requires
        env.wf(),
    ensures
        follows(parsed(tokens, env).1, env),
    decreases tokens.len(), 0nat,
{
    lemma_follows_itself(env);
    if tokens.len() > 0 {
        if tokens[0].text == "("@ {
            lemma_parsed_items_follows(tokens.skip(1), env, Seq::empty());
        } else if let Some(bits) = tokens[0].number {
            lemma_follows_emit(env, CallView::ConstNumber { value: HostNum::Lit(bits) });
        }
    }
}

/// Reading the rest of a list continues the context, whatever the outcome.
pub proof fn lemma_parsed_items_follows(tokens: Seq<TokenView>, env: EnvView, items: Seq<ExpView>)
    requires
        env.wf(),
    ensures
        follows(parsed_items(tokens, env, items).1, env),
    decreases tokens.len(), 1nat,
{
    lemma_follows_itself(env);
    if tokens.len() > 0 && tokens[0].text != ")"@ {
        let (item, env1) = parsed(tokens, env);
        lemma_parsed_follows(tokens, env);
        lemma_follows_keeps(env1, env);
        if let Ok((form, rest)) = item {
            if rest.len() < tokens.len() {
                lemma_parsed_items_follows(rest, env1, items.push(form));
                lemma_follows_chain(parsed_items(rest, env1, items.push(form)).1, env1, env);
            }
        }
    }
}

} // verus!
