//! References are used after they are made.
//!
//! A call may only use values that earlier calls created. The context a program
//! starts in is like that, and reading and evaluating keep it so: whatever a
//! form does, every call it records uses references the recording had already
//! handed out, and every number it gives is backed by one of them.

use vstd::prelude::*;
use crate::builtin::env::{EnvView, default_view, lemma_initial_registry, lookup};
use crate::builtin::ir::{
    all_numbers, arithmetic_strategy, input_strategy, lowered, materialized, number_values,
    print_strategy,
};
use crate::builtin::ops::{applied, pair_call, product, quotient};
use crate::eval::{called, dispatched, evaluated, evaluated_args, ran};
use crate::exp::{Builtin, ErrView, ExpView};
use crate::host::HostNum;
use crate::ir::backend::{CallView, IrType, ValueRef, next_ref};
use crate::ir::operate::number_slot_calls;
use crate::ir::string::string_calls;
use crate::progress::{
    follows, lemma_applied_follows, lemma_evaluated_args_follows, lemma_evaluated_follows,
    lemma_follows_emit, lemma_follows_emit_all, lemma_follows_keeps, lemma_materialized_follows,
    lemma_parsed_follows, lemma_string_follows,
};
use crate::reader::{TokenView, parsed, parsed_items};

verus! {

/// The references that `call` uses.
pub open spec fn operands(call: CallView) -> Seq<ValueRef> {
    match call {
        CallView::CreateModule { .. } => Seq::empty(),
        CallView::AddFunction { .. } => Seq::empty(),
        CallView::AddGlobal { .. } => Seq::empty(),
        CallView::SetLinkage { global, .. } => seq![global],
        CallView::SetInitializer { global, value } => seq![global, value],
        CallView::SetGlobalConstant { global } => seq![global],
        CallView::SetUnnamedAddress { global } => seq![global],
        CallView::AppendBlock { function, .. } => seq![function],
        CallView::PositionAtEnd { block } => seq![block],
        CallView::ConstInt { .. } => Seq::empty(),
        CallView::ConstNumber { .. } => Seq::empty(),
        CallView::ConstString { .. } => Seq::empty(),
        CallView::ConstGep { base, indices } => seq![base] + indices,
        CallView::Alloca { .. } => Seq::empty(),
        CallView::Store { value, target } => seq![value, target],
        CallView::Load { source, .. } => seq![source],
        CallView::Add { lhs, rhs, .. } => seq![lhs, rhs],
        CallView::Sub { lhs, rhs, .. } => seq![lhs, rhs],
        CallView::Gep { base, indices, .. } => seq![base] + indices,
        CallView::Call { function, args, .. } => seq![function] + args,
        CallView::Ret { value } => seq![value],
    }
}

/// `reference` names one of the first `n` calls of a recording.
pub open spec fn made(reference: ValueRef, n: nat) -> bool {
    match reference {
        ValueRef::Null => false,
        ValueRef::At(at) => at < n,
    }
}

/// `call` uses only references to the first `n` calls.
pub open spec fn uses_made(call: CallView, n: nat) -> bool {
    forall|k: int| 0 <= k < operands(call).len() ==> made(#[trigger] operands(call)[k], n)
}

/// Every call of the recording uses only references to calls before it.
pub open spec fn scoped(calls: Seq<CallView>) -> bool {
    forall|i: int| 0 <= i < calls.len() ==> uses_made(#[trigger] calls[i], i as nat)
}

/// Every number in `value` is backed by one of the first `n` calls, and every
/// function in it that is named `printf` is the print operation.
pub open spec fn backed(value: ExpView, n: nat) -> bool
    decreases value,
{
    match value {
        ExpView::Number(_, handle) => made(handle.0, n),
        ExpView::List(items) => forall|i: int|
            0 <= i < items.len() ==> backed(#[trigger] items[i], n),
        ExpView::Func(name, op) => name == "printf"@ ==> op == Builtin::Printf,
        _ => true,
    }
}

/// Every value of `values` is backed by one of the first `n` calls.
pub open spec fn all_backed(values: Seq<ExpView>, n: nat) -> bool {
    forall|i: int| 0 <= i < values.len() ==> backed(#[trigger] values[i], n)
}

/// The context is sound: its recording is scoped, and the numbers in its
/// symbol table and the functions in its registry are in the recording.
pub open spec fn sound(env: EnvView) -> bool {
    &&& scoped(env.llvm)
    &&& forall|i: int|
        0 <= i < env.data.len() ==> backed((#[trigger] env.data[i]).1, env.llvm.len())
    &&& forall|i: int|
        0 <= i < env.built_ins.len() ==> made((#[trigger] env.built_ins[i]).1, env.llvm.len())
}

/// A value backed by a recording is backed by any longer one.
pub proof fn lemma_backed_longer(value: ExpView, n: nat, m: nat)
    requires
        backed(value, n),
        n <= m,
    ensures
        backed(value, m),
    decreases value,
{
    if let ExpView::List(items) = value {
        assert forall|i: int| 0 <= i < items.len() implies backed(#[trigger] items[i], m) by {
            lemma_backed_longer(items[i], n, m);
        }
    }
}

/// Recording a call that uses what is made keeps the recording scoped.
pub proof fn lemma_scoped_push(calls: Seq<CallView>, call: CallView)
    requires
        scoped(calls),
        uses_made(call, calls.len()),
    ensures
        scoped(calls.push(call)),
{
    assert forall|i: int| 0 <= i < calls.push(call).len() implies uses_made(
        #[trigger] calls.push(call)[i],
        i as nat,
    ) by {
        if i < calls.len() {
            assert(calls.push(call)[i] == calls[i]);
        }
    }
}

/// Recording calls of which each uses what is made before it keeps the
/// recording scoped.
pub proof fn lemma_scoped_append(calls: Seq<CallView>, more: Seq<CallView>)
    requires
        scoped(calls),
        forall|i: int| 0 <= i < more.len() ==> uses_made(#[trigger] more[i], calls.len() + i as nat),
    ensures
        scoped(calls + more),
{
    assert forall|i: int| 0 <= i < (calls + more).len() implies uses_made(
        #[trigger] (calls + more)[i],
        i as nat,
    ) by {
        if i < calls.len() {
            assert((calls + more)[i] == calls[i]);
        } else {
            assert((calls + more)[i] == more[i - calls.len()]);
        }
    }
}

/// What a name is bound to in a symbol table of backed values is backed.
pub proof fn lemma_lookup_backed(table: Seq<(Seq<char>, ExpView)>, name: Seq<char>, n: nat)
    requires
        forall|i: int| 0 <= i < table.len() ==> backed((#[trigger] table[i]).1, n),
    ensures
        lookup(table, name) matches Some(value) ==> backed(value, n),
    decreases table.len(),
{
    if table.len() > 0 && table.last().0 != name {
        assert forall|i: int| 0 <= i < table.drop_last().len() implies backed(
            (#[trigger] table.drop_last()[i]).1,
            n,
        ) by {
            assert(table.drop_last()[i] == table[i]);
        }
        lemma_lookup_backed(table.drop_last(), name, n);
    }
}

/// What a name stands for in a registry of made functions is made.
pub proof fn lemma_lookup_made(table: Seq<(Seq<char>, ValueRef)>, name: Seq<char>, n: nat)
    requires
        forall|i: int| 0 <= i < table.len() ==> made((#[trigger] table[i]).1, n),
    ensures
        lookup(table, name) matches Some(value) ==> made(value, n),
    decreases table.len(),
{
    if table.len() > 0 && table.last().0 != name {
        assert forall|i: int| 0 <= i < table.drop_last().len() implies made(
            (#[trigger] table.drop_last()[i]).1,
            n,
        ) by {
            assert(table.drop_last()[i] == table[i]);
        }
        lemma_lookup_made(table.drop_last(), name, n);
    }
}

/// A context that continues a sound one, with a scoped recording, is sound.
pub proof fn lemma_sound_continued(after: EnvView, before: EnvView)
    requires
        sound(before),
        follows(after, before),
        scoped(after.llvm),
    ensures
        sound(after),
{
    assert forall|i: int| 0 <= i < after.data.len() implies backed(
        (#[trigger] after.data[i]).1,
        after.llvm.len(),
    ) by {
        lemma_backed_longer(before.data[i].1, before.llvm.len(), after.llvm.len());
    }
}

/// Recording a call that uses what is made keeps the context sound.
pub proof fn lemma_emit_sound(env: EnvView, call: CallView)
    requires
        sound(env),
        env.wf(),
        uses_made(call, env.llvm.len()),
        !(call is PositionAtEnd),
    ensures
        sound(env.emit(call)),
{
    lemma_scoped_push(env.llvm, call);
    lemma_follows_emit(env, call);
    lemma_sound_continued(env.emit(call), env);
}

/// Recording calls of which each uses what is made before it keeps the
/// context sound.
pub proof fn lemma_emit_all_sound(env: EnvView, calls: Seq<CallView>)
    requires
        sound(env),
        env.wf(),
        forall|i: int|
            0 <= i < calls.len() ==> uses_made(#[trigger] calls[i], env.llvm.len() + i as nat)
                && !(calls[i] is PositionAtEnd),
    ensures
        sound(env.emit_all(calls)),
{
    lemma_scoped_append(env.llvm, calls);
    lemma_follows_emit_all(env, calls);
    lemma_sound_continued(env.emit_all(calls), env);
}

/// Lowering a number keeps the context sound, and the number is backed by its
/// slot.
pub proof fn lemma_lowered_sound(env: EnvView, value: HostNum)
    requires
        sound(env),
        env.wf(),
    ensures
        sound(lowered(env, value).1),
        backed(lowered(env, value).0, lowered(env, value).1.llvm.len()),
{
    let n = env.llvm.len();
    let calls = number_slot_calls(n, value, ""@);
    assert forall|i: int| 0 <= i < calls.len() implies uses_made(
        #[trigger] calls[i],
        n + i as nat,
    ) && !(calls[i] is PositionAtEnd) by {
        if i == 2 {
            assert(operands(calls[2]) =~= seq![
                ValueRef::At((n + 1) as usize),
                ValueRef::At(n as usize),
            ]);
        }
    }
    lemma_emit_all_sound(env, calls);
}

/// Materializing a backed number keeps the context sound and gives a
/// reference that is made.
pub proof fn lemma_materialized_sound(env: EnvView, exp: ExpView)
    requires
        sound(env),
        env.wf(),
        exp is Number,
        backed(exp, env.llvm.len()),
    ensures
        sound(materialized(env, exp).1),
        made(materialized(env, exp).0, materialized(env, exp).1.llvm.len()),
{
    let handle = exp->Number_1;
    if !handle.1 {
        let call = CallView::Load { source: handle.0, name: ""@ };
        assert(operands(call) =~= seq![handle.0]);
        lemma_emit_sound(env, call);
    }
}

/// Defining a string keeps the context sound, and its address is made.
pub proof fn lemma_string_sound(env: EnvView, text: Seq<char>, name: Seq<char>)
    requires
        sound(env),
        env.wf(),
    ensures
        sound(env.emit_all(string_calls(env.llvm.len(), text, name))),
        made(ValueRef::At((env.llvm.len() + 8) as usize), env.llvm.len() + 9),
        string_calls(env.llvm.len(), text, name).len() == 9,
{
    let n = env.llvm.len();
    let calls = string_calls(n, text, name);
    let global = ValueRef::At((n + 1) as usize);
    let constant = ValueRef::At(n as usize);
    assert(calls.len() == 9);
    assert forall|i: int| 0 <= i < calls.len() implies uses_made(
        #[trigger] calls[i],
        n + i as nat,
    ) && !(calls[i] is PositionAtEnd) by {
        if i == 2 {
            assert(operands(calls[2]) =~= seq![global]);
        } else if i == 3 {
            assert(operands(calls[3]) =~= seq![global, constant]);
        } else if i == 4 {
            assert(operands(calls[4]) =~= seq![global]);
        } else if i == 5 {
            assert(operands(calls[5]) =~= seq![global]);
        } else if i == 8 {
            assert(operands(calls[8]) =~= seq![
                global,
                ValueRef::At((n + 6) as usize),
                ValueRef::At((n + 7) as usize),
            ]);
        }
    }
    lemma_emit_all_sound(env, calls);
}

/// The outcome, if it is a value, is backed by the recording of `env`.
pub open spec fn outcome_backed(outcome: Result<ExpView, ErrView>, env: EnvView) -> bool {
    outcome matches Ok(value) ==> backed(value, env.llvm.len())
}

/// Applying an operation to backed arguments, with a made reference if any,
/// keeps the context sound and gives a backed value.
pub proof fn lemma_applied_sound(
    op: Builtin,
    env: EnvView,
    args: Seq<ExpView>,
    handle: Option<ValueRef>,
)
    requires
        sound(env),
        env.wf(),
        all_backed(args, env.llvm.len()),
        handle matches Some(reference) ==> made(reference, env.llvm.len()),
    ensures
        sound(applied(op, env, args, handle).1),
        outcome_backed(applied(op, env, args, handle).0, applied(op, env, args, handle).1),
{
    let (result, after) = applied(op, env, args, handle);
    lemma_applied_follows(op, env, args, handle);
    match op {
        Builtin::Add | Builtin::Sub => {
            if all_numbers(args) && args.len() >= 2 {
                let (lhs, env1) = materialized(env, args[0]);
                lemma_materialized_sound(env, args[0]);
                lemma_materialized_follows(env, args[0]);
                lemma_follows_keeps(env1, env);
                lemma_backed_longer(args[1], env.llvm.len(), env1.llvm.len());
                let (rhs, env2) = materialized(env1, args[1]);
                lemma_materialized_sound(env1, args[1]);
                lemma_materialized_follows(env1, args[1]);
                lemma_follows_keeps(env2, env1);
                let call = pair_call(op is Add, lhs, rhs);
                assert(operands(call) =~= seq![lhs, rhs]);
                lemma_emit_sound(env2, call);
            }
        },
        Builtin::Mul => {
            lemma_lowered_sound(env, product(number_values(args)));
        },
        Builtin::Div => {
            lemma_lowered_sound(env, quotient(number_values(args)));
        },
        Builtin::Printf => {
            lemma_sound_continued(after, env);
        },
        Builtin::Input => {
            lemma_sound_continued(after, env);
        },
    }
}

/// The arithmetic strategy keeps the context sound and gives a backed value.
pub proof fn lemma_arithmetic_sound(
    env: EnvView,
    op: Builtin,
    args_eval: Result<Seq<ExpView>, ErrView>,
)
    requires
        sound(env),
        env.wf(),
        args_eval matches Ok(args) ==> all_backed(args, env.llvm.len()),
    ensures
        sound(arithmetic_strategy(env, op, args_eval).1),
        outcome_backed(
            arithmetic_strategy(env, op, args_eval).0,
            arithmetic_strategy(env, op, args_eval).1,
        ),
{
    if let Ok(args) = args_eval {
        lemma_applied_sound(op, env, args, None);
    }
}

/// The input strategy keeps the context sound and gives a backed value.
pub proof fn lemma_input_sound(env: EnvView, op: Builtin)
    requires
        sound(env),
        env.wf(),
    ensures
        sound(input_strategy(env, op).1),
        outcome_backed(input_strategy(env, op).0, input_strategy(env, op).1),
{
    let n = env.llvm.len();
    let slot = next_ref(env.llvm);
    let alloca = CallView::Alloca { ty: IrType::Int32, name: "input"@ };
    let env1 = env.emit(alloca);
    lemma_emit_sound(env, alloca);
    lemma_follows_emit(env, alloca);
    lemma_follows_keeps(env1, env);
    let format = ValueRef::At((env1.llvm.len() + 8) as usize);
    let env2 = env1.emit_all(string_calls(env1.llvm.len(), "%u"@, ""@));
    lemma_string_sound(env1, "%u"@, ""@);
    lemma_string_follows(env1, "%u"@, ""@);
    lemma_follows_keeps(env2, env1);
    let function = env.builtin("input"@)->Some_0;
    lemma_lookup_made(env.built_ins, "input"@, n);
    let call = CallView::Call { function, args: seq![format, slot], name: ""@ };
    assert(operands(call) =~= seq![function, format, slot]);
    let env3 = env2.emit(call);
    lemma_emit_sound(env2, call);
    lemma_follows_emit(env2, call);
    lemma_follows_keeps(env3, env2);
    lemma_applied_sound(op, env3, Seq::empty(), Some(slot));
}

/// The print strategy for the print operation keeps the context sound and
/// gives a backed value.
pub proof fn lemma_print_sound(env: EnvView, args_eval: Result<Seq<ExpView>, ErrView>)
    requires
        sound(env),
        env.wf(),
        args_eval matches Ok(args) ==> all_backed(args, env.llvm.len()),
    ensures
        sound(print_strategy(env, Builtin::Printf, args_eval).1),
        outcome_backed(
            print_strategy(env, Builtin::Printf, args_eval).0,
            print_strategy(env, Builtin::Printf, args_eval).1,
        ),
{
    let op = Builtin::Printf;
    if let Ok(args) = args_eval {
        if args.len() > 0 && args[0] is Number {
            let n = env.llvm.len();
            let slot = next_ref(env.llvm);
            let alloca = CallView::Alloca { ty: IrType::Int32, name: ""@ };
            let env1 = env.emit(alloca);
            lemma_emit_sound(env, alloca);
            lemma_follows_emit(env, alloca);
            lemma_follows_keeps(env1, env);
            lemma_backed_longer(args[0], n, env1.llvm.len());
            let (value, env2) = materialized(env1, args[0]);
            lemma_materialized_sound(env1, args[0]);
            lemma_materialized_follows(env1, args[0]);
            lemma_follows_keeps(env2, env1);
            let store = CallView::Store { value, target: slot };
            assert(operands(store) =~= seq![value, slot]);
            let env3 = env2.emit(store);
            lemma_emit_sound(env2, store);
            lemma_follows_emit(env2, store);
            lemma_follows_keeps(env3, env2);
            let loaded = next_ref(env3.llvm);
            let load = CallView::Load { source: slot, name: ""@ };
            assert(operands(load) =~= seq![slot]);
            let env4 = env3.emit(load);
            lemma_emit_sound(env3, load);
            lemma_follows_emit(env3, load);
            lemma_follows_keeps(env4, env3);
            let format = ValueRef::At((env4.llvm.len() + 8) as usize);
            let env5 = env4.emit_all(string_calls(env4.llvm.len(), "Result: %d\n"@, ""@));
            lemma_string_sound(env4, "Result: %d\n"@, ""@);
            lemma_string_follows(env4, "Result: %d\n"@, ""@);
            lemma_follows_keeps(env5, env4);
            let function = env.builtin("printf"@)->Some_0;
            lemma_lookup_made(env.built_ins, "printf"@, n);
            let call = CallView::Call { function, args: seq![format, loaded], name: ""@ };
            assert(operands(call) =~= seq![function, format, loaded]);
            let env6 = env5.emit(call);
            lemma_emit_sound(env5, call);
            lemma_follows_emit(env5, call);
            lemma_follows_keeps(env6, env5);
            assert forall|i: int| 0 <= i < args.len() implies backed(
                #[trigger] args[i],
                env6.llvm.len(),
            ) by {
                lemma_backed_longer(args[i], n, env6.llvm.len());
            }
            lemma_applied_sound(op, env6, args, Some(loaded));
        } else {
            let after = applied(op, env, args, Some(ValueRef::Null)).1;
            lemma_applied_follows(op, env, args, Some(ValueRef::Null));
            lemma_sound_continued(after, env);
        }
    }
}

/// Dispatching a call of a backed function on backed arguments keeps the
/// context sound and gives a backed value.
pub proof fn lemma_dispatched_sound(
    env: EnvView,
    name: Seq<char>,
    op: Builtin,
    args_eval: Result<Seq<ExpView>, ErrView>,
)
    requires
        sound(env),
        env.wf(),
        backed(ExpView::Func(name, op), env.llvm.len()),
        args_eval matches Ok(args) ==> all_backed(args, env.llvm.len()),
    ensures
        sound(dispatched(env, name, op, args_eval).1),
        outcome_backed(
            dispatched(env, name, op, args_eval).0,
            dispatched(env, name, op, args_eval).1,
        ),
{
    lemma_arithmetic_sound(env, op, args_eval);
    lemma_input_sound(env, op);
    lemma_print_sound(env, args_eval);
}

/// Evaluating a form in a sound context leaves a sound context, and its value
/// is backed.
pub proof fn lemma_evaluated_sound(exp: ExpView, env: EnvView)
    requires
        sound(env),
        env.wf(),
    ensures
        sound(evaluated(exp, env).1),
        outcome_backed(evaluated(exp, env).0, evaluated(exp, env).1),
    decreases exp, 0nat,
{
    match exp {
        ExpView::Symbol(name) => {
            lemma_lookup_backed(env.data, name, env.llvm.len());
        },
        ExpView::Number(value, _) => {
            lemma_lowered_sound(env, value);
        },
        ExpView::List(list) => {
            if list.len() > 0 {
                let (first, env1) = evaluated(list[0], env);
                lemma_evaluated_sound(list[0], env);
                lemma_evaluated_follows(list[0], env);
                lemma_follows_keeps(env1, env);
                if let Ok(ExpView::Func(name, op)) = first {
                    lemma_called_sound(env1, name, op, list.skip(1));
                }
            }
        },
        _ => {},
    }
}

/// The argument evaluation pass in a sound context leaves a sound context,
/// and its values are backed.
pub proof fn lemma_evaluated_args_sound(forms: Seq<ExpView>, env: EnvView)
    requires
        sound(env),
        env.wf(),
    ensures
        sound(evaluated_args(forms, env).1),
        evaluated_args(forms, env).0 matches Ok(values) ==> all_backed(
            values,
            evaluated_args(forms, env).1.llvm.len(),
        ),
    decreases forms, 0nat,
{
    if forms.len() > 0 {
        let (before, env1) = evaluated_args(forms.drop_last(), env);
        lemma_evaluated_args_sound(forms.drop_last(), env);
        lemma_evaluated_args_follows(forms.drop_last(), env);
        lemma_follows_keeps(env1, env);
        if let Ok(values) = before {
            let (last, env2) = evaluated(forms.last(), env1);
            lemma_evaluated_sound(forms.last(), env1);
            lemma_evaluated_follows(forms.last(), env1);
            if let Ok(value) = last {
                assert forall|i: int| 0 <= i < values.push(value).len() implies backed(
                    #[trigger] values.push(value)[i],
                    env2.llvm.len(),
                ) by {
                    if i < values.len() {
                        lemma_backed_longer(values[i], env1.llvm.len(), env2.llvm.len());
                    }
                }
            }
        }
    }
}

/// A call of a backed function in a sound context leaves a sound context, and
/// its value is backed.
pub proof fn lemma_called_sound(env: EnvView, name: Seq<char>, op: Builtin, forms: Seq<ExpView>)
    requires
        sound(env),
        env.wf(),
        backed(ExpView::Func(name, op), env.llvm.len()),
    ensures
        sound(called(env, name, op, forms).1),
        outcome_backed(called(env, name, op, forms).0, called(env, name, op, forms).1),
    decreases forms, 1nat,
{
    let (args, env1) = evaluated_args(forms, env);
    lemma_evaluated_args_sound(forms, env);
    lemma_evaluated_args_follows(forms, env);
    lemma_follows_keeps(env1, env);
    lemma_dispatched_sound(env1, name, op, args);
}

/// Reading a form in a sound context leaves a sound context.
pub proof fn lemma_parsed_sound(tokens: Seq<TokenView>, env: EnvView)
    requires
        sound(env),
        env.wf(),
    ensures
        sound(parsed(tokens, env).1),
    decreases tokens.len(), 0nat,
{
    if tokens.len() > 0 {
        if tokens[0].text == "("@ {
            lemma_parsed_items_sound(tokens.skip(1), env, Seq::empty());
        } else if let Some(bits) = tokens[0].number {
            let call = CallView::ConstNumber { value: HostNum::Lit(bits) };
            lemma_emit_sound(env, call);
        }
    }
}

/// Reading the rest of a list in a sound context leaves a sound context.
pub proof fn lemma_parsed_items_sound(tokens: Seq<TokenView>, env: EnvView, items: Seq<ExpView>)
    requires
        sound(env),
        env.wf(),
    ensures
        sound(parsed_items(tokens, env, items).1),
    decreases tokens.len(), 1nat,
{
    if tokens.len() > 0 && tokens[0].text != ")"@ {
        let (item, env1) = parsed(tokens, env);
        lemma_parsed_sound(tokens, env);
        lemma_parsed_follows(tokens, env);
        lemma_follows_keeps(env1, env);
        if let Ok((form, rest)) = item {
            if rest.len() < tokens.len() {
                lemma_parsed_items_sound(rest, env1, items.push(form));
            }
        }
    }
}

/// The context a program starts in is sound.
pub proof fn law_default_sound()
    ensures
        sound(default_view()),
        default_view().wf(),
{
    let env = default_view();
    lemma_initial_registry();
    reveal_strlit("printf");
    reveal_strlit("input");
    reveal_strlit("+");
    reveal_strlit("-");
    reveal_strlit("*");
    reveal_strlit("/");
    assert("printf"@.len() == 6);
    assert forall|i: int| 0 <= i < env.llvm.len() implies uses_made(
        #[trigger] env.llvm[i],
        i as nat,
    ) by {
        if i == 4 {
            assert(operands(env.llvm[4]) =~= seq![ValueRef::At(3)]);
        } else if i == 5 {
            assert(operands(env.llvm[5]) =~= seq![ValueRef::At(4)]);
        }
    }
}

/// Running a program in a sound context leaves a sound context: every call
/// that reading and evaluating record, and the return at the end, use only
/// references that the recording had handed out before; and the value of the
/// program is backed by the recording.
pub proof fn law_references(tokens: Seq<TokenView>, env: EnvView)
    requires
        sound(env),
        env.wf(),
    ensures
        sound(ran(tokens, env).1),
        outcome_backed(ran(tokens, env).0, ran(tokens, env).1),
{
    let (form, env1) = parsed(tokens, env);
    lemma_parsed_sound(tokens, env);
    lemma_parsed_follows(tokens, env);
    lemma_follows_keeps(env1, env);
    if let Ok((exp, _)) = form {
        let (result, env2) = evaluated(exp, env1);
        lemma_evaluated_sound(exp, env1);
        lemma_evaluated_follows(exp, env1);
        lemma_follows_keeps(env2, env1);
        if let Ok(ExpView::Number(_, handle)) = result {
            let call = CallView::Ret { value: handle.0 };
            assert(operands(call) =~= seq![handle.0]);
            lemma_emit_sound(env2, call);
            lemma_backed_longer(result->Ok_0, env2.llvm.len(), env2.llvm.len() + 1);
        }
    }
}

} // verus!
