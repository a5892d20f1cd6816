//! The evaluator: one synchronous descent over a form that computes its value
//! and records, in the same order, the backend calls that recompute it.

use vstd::prelude::*;
use vstd::slice::*;
use vstd::string::*;
use crate::builtin::env::{EnvView, RispEnv, lookup};
use crate::builtin::ir::{
    args_outcome, arithmetic_strategy, eval_arithmetic, eval_input_fn, eval_number,
    eval_printf_fn, input_strategy, lowered, print_strategy,
};
use crate::exp::{
    Builtin, ErrView, ExpView, RispErr, RispExp, lemma_views, lemma_views_push,
    lemma_views_subrange, named, outcome, views,
};
use crate::ir::backend::CallView;
use crate::ir::operate::build_ret;
use crate::progress::{
    follows, lemma_called_follows, lemma_evaluated_follows, lemma_follows_chain,
    lemma_follows_emit, lemma_follows_keeps, lemma_parsed_follows,
};
use crate::reader::{Token, TokenView, parse, parsed, token_views};
use crate::references::{law_references, lemma_evaluated_sound, outcome_backed, sound};

verus! {

/// What the symbol `name` resolves to in `env`.
pub open spec fn resolved(env: EnvView, name: Seq<char>) -> Result<ExpView, ErrView> {
    match lookup(env.data, name) {
        Some(value) => Ok(value),
        None => Err(ErrView::UnresolvedSymbol(name)),
    }
}

/// Resolves the symbol `k` against the symbol table.
pub fn get_symbol(env: &RispEnv, k: &String) -> (r: Result<RispExp, RispErr>)
    ensures
        outcome(r) == resolved(env@, k@),
{
    let mut i: usize = env.data.len();
    proof {
        assert(env@.data.take(i as int) =~= env@.data);
    }
    while i > 0
        invariant
            i <= env.data.len(),
            lookup(env@.data, k@) == lookup(env@.data.take(i as int), k@),
        decreases i,
    {
        i = i - 1;
        proof {
            assert(env@.data.take(i + 1).drop_last() =~= env@.data.take(i as int));
        }
        if env.data[i].0 == *k {
            return Ok(env.data[i].1.duplicate());
        }
    }
    Err(RispErr::UnresolvedSymbol(k.clone()))
}

/// The name is one of the four arithmetic operators.
pub open spec fn is_arithmetic(name: Seq<char>) -> bool {
    name == "+"@ || name == "-"@ || name == "*"@ || name == "/"@
}

/// The call of the function `name` with operation `op`, once its arguments are
/// evaluated: routed by name to the arithmetic, the print or the input
/// strategy; a name with no rule is not found. The input strategy does not look
/// at the arguments, not even at a failure among them.
pub open spec fn dispatched(
    env: EnvView,
    name: Seq<char>,
    op: Builtin,
    args_eval: Result<Seq<ExpView>, ErrView>,
) -> (Result<ExpView, ErrView>, EnvView) {
    if is_arithmetic(name) {
        arithmetic_strategy(env, op, args_eval)
    } else if name == "printf"@ {
        print_strategy(env, op, args_eval)
    } else if name == "input"@ {
        input_strategy(env, op)
    } else {
        (Err(ErrView::FunctionNotFound), env)
    }
}

/// The evaluation of the form `exp` in `env`: the outcome and the context
/// after it.
///
/// A symbol resolves against the symbol table. A number is lowered afresh,
/// whatever handle it carried. A list is a call: its first form is evaluated
/// and has to give a function, then every argument form is evaluated, then the
/// call is dispatched. A function outside call position is an error, and `Null`
/// is itself.
pub open spec fn evaluated(exp: ExpView, env: EnvView) -> (Result<ExpView, ErrView>, EnvView)
    decreases exp, 0nat,
{
    match exp {
        ExpView::Symbol(name) => (resolved(env, name), env),
        ExpView::Number(value, _) => (Ok(lowered(env, value).0), lowered(env, value).1),
        ExpView::List(list) => if list.len() == 0 {
            (Err(ErrView::EmptyList), env)
        } else {
            let (first, env1) = evaluated(list[0], env);
            match first {
                Ok(ExpView::Func(name, op)) => called(env1, name, op, list.skip(1)),
                Ok(_) => (Err(ErrView::NotAFunction), env1),
                Err(error) => (Err(error), env1),
            }
        },
        ExpView::Func(_, _) => (Err(ErrView::UnexpectedForm), env),
        ExpView::Null => (Ok(ExpView::Null), env),
    }
}

/// The argument evaluation pass over `forms` in `env`: the forms are evaluated
/// from left to right, each in the context the one before left behind. The
/// first failure ends the pass and is its outcome; else the values, in order.
pub open spec fn evaluated_args(forms: Seq<ExpView>, env: EnvView) -> (
    Result<Seq<ExpView>, ErrView>,
    EnvView,
)
    decreases forms, 0nat,
{
    if forms.len() == 0 {
        (Ok(Seq::empty()), env)
    } else {
        let (before, env1) = evaluated_args(forms.drop_last(), env);
        match before {
            Err(error) => (Err(error), env1),
            Ok(values) => {
                let (last, env2) = evaluated(forms.last(), env1);
                match last {
                    Ok(value) => (Ok(values.push(value)), env2),
                    Err(error) => (Err(error), env2),
                }
            },
        }
    }
}

/// The call of the function `name` with operation `op` on the argument forms
/// `forms`: the argument evaluation pass, then the dispatch.
pub open spec fn called(env: EnvView, name: Seq<char>, op: Builtin, forms: Seq<ExpView>) -> (
    Result<ExpView, ErrView>,
    EnvView,
)
    decreases forms, 1nat,
{
    let (args, env1) = evaluated_args(forms, env);
    dispatched(env1, name, op, args)
}

/// Once a prefix of the argument forms has failed, the whole pass has failed
/// in the same way: nothing after the failure is evaluated.
pub proof fn lemma_args_failure(forms: Seq<ExpView>, k: int, env: EnvView)
    requires
        0 <= k <= forms.len(),
        evaluated_args(forms.take(k), env).0 is Err,
    ensures
        evaluated_args(forms, env) == evaluated_args(forms.take(k), env),
    decreases forms.len(),
{
    if k == forms.len() {
        assert(forms.take(k) =~= forms);
    } else {
        assert(forms.drop_last().take(k) =~= forms.take(k));
        lemma_args_failure(forms.drop_last(), k, env);
    }
}

/// Dispatches the call of `f_name`, whose arguments evaluated to `args_eval`.
pub fn dispatch(
    env: &mut RispEnv,
    f_name: &String,
    func: &Builtin,
    args_eval: Result<Vec<RispExp>, RispErr>,
) -> (r: Result<RispExp, RispErr>)
    requires
        old(env)@.wf(),
    ensures
        (outcome(r), final(env)@) == dispatched(
            old(env)@,
            f_name@,
            *func,
            args_outcome(args_eval),
        ),
{
    if named(f_name, "+") || named(f_name, "-") || named(f_name, "*") || named(f_name, "/") {
        eval_arithmetic(env, f_name.as_str(), func, args_eval)
    } else if named(f_name, "printf") {
        eval_printf_fn(env, func, args_eval)
    } else if named(f_name, "input") {
        eval_input_fn(env, func)
    } else {
        Err(RispErr::FunctionNotFound)
    }
}

/// Calls the function `f_name`: evaluates the argument forms from left to
/// right, stopping at the first that fails, and dispatches.
pub fn eval_function(
    env: &mut RispEnv,
    f_name: &String,
    func: &Builtin,
    arg_forms: &[RispExp],
) -> (r: Result<RispExp, RispErr>)
    requires
        old(env)@.wf(),
    ensures
        (outcome(r), final(env)@) == called(old(env)@, f_name@, *func, views(arg_forms@)),
        follows(final(env)@, old(env)@),
    decreases views(arg_forms@), 1nat,
{
    let ghost start = env@;
    let ghost forms = views(arg_forms@);
    proof {
        lemma_views(arg_forms@);
        lemma_called_follows(start, f_name@, *func, forms);
    }
    let mut args: Vec<RispExp> = Vec::new();
    let mut i: usize = 0;
    proof {
        assert(forms.take(0) =~= Seq::<ExpView>::empty());
        assert(views(args@) =~= Seq::<ExpView>::empty());
    }
    while i < arg_forms.len()
        invariant
            i <= arg_forms.len(),
            start == old(env)@,
            start.wf(),
            env@.wf(),
            forms == views(arg_forms@),
            forms.len() == arg_forms@.len(),
            forall|j: int| 0 <= j < arg_forms@.len() ==> (#[trigger] forms[j]) == arg_forms@[j]@,
            evaluated_args(forms.take(i as int), start) == (
                Ok::<Seq<ExpView>, ErrView>(views(args@)),
                env@,
            ),
            follows(called(start, f_name@, *func, forms).1, start),
        decreases arg_forms.len() - i,
    {
        let ghost now = env@;
        proof {
            assert(forms.take(i + 1).drop_last() =~= forms.take(i as int));
            assert(forms.take(i + 1).last() == arg_forms@[i as int]@);
            assert(decreases_to!(forms => forms[i as int]));
            lemma_evaluated_follows(arg_forms@[i as int]@, now);
            lemma_follows_keeps(evaluated(arg_forms@[i as int]@, now).1, now);
        }
        match eval(&arg_forms[i], env) {
            Ok(value) => {
                proof {
                    lemma_views_push(args@, value);
                }
                args.push(value);
            },
            Err(error) => {
                proof {
                    lemma_args_failure(forms, i + 1, start);
                }
                return dispatch(env, f_name, func, Err(error));
            },
        }
        i = i + 1;
    }
    proof {
        assert(forms.take(arg_forms.len() as int) =~= forms);
    }
    dispatch(env, f_name, func, Ok(args))
}

/// Evaluates the form `exp` in `env`.
pub fn eval(exp: &RispExp, env: &mut RispEnv) -> (r: Result<RispExp, RispErr>)
    requires
        old(env)@.wf(),
    ensures
        (outcome(r), final(env)@) == evaluated(exp@, old(env)@),
        follows(final(env)@, old(env)@),
        sound(old(env)@) ==> sound(final(env)@) && outcome_backed(outcome(r), final(env)@),
    decreases exp@, 0nat,
{
    proof {
        lemma_evaluated_follows(exp@, env@);
        if sound(env@) {
            lemma_evaluated_sound(exp@, env@);
        }
    }
    match exp {
        RispExp::Symbol(k) => get_symbol(env, k),
        RispExp::Number(val, _) => Ok(eval_number(env, val.duplicate())),
        RispExp::List(list) => {
            if list.len() == 0 {
                return Err(RispErr::EmptyList);
            }
            proof {
                lemma_views(list@);
                assert(decreases_to!(exp@ => exp@->List_0[0]));
                lemma_evaluated_follows(list@[0]@, env@);
                lemma_follows_keeps(evaluated(list@[0]@, env@).1, env@);
            }
            let first_eval = match eval(&list[0], env) {
                Ok(value) => value,
                Err(error) => {
                    return Err(error);
                },
            };
            match first_eval {
                RispExp::Func(f_name, func) => {
                    let arg_forms = slice_subrange(list.as_slice(), 1, list.len());
                    proof {
                        lemma_views_subrange(list@, 1, list@.len() as int);
                        assert(views(list@).skip(1) =~= views(list@).subrange(
                            1,
                            list@.len() as int,
                        ));
                        assert(decreases_to!(exp@ => exp@->List_0.subrange(1, list@.len() as int)));
                    }
                    eval_function(env, &f_name, &func, arg_forms)
                },
                _ => Err(RispErr::NotAFunction),
            }
        },
        RispExp::Func(_, _) => Err(RispErr::UnexpectedForm),
        RispExp::Null => Ok(RispExp::Null),
    }
}

/// The context after the return of the program's result `result`: a number is
/// returned by its reference as it stands; for anything else, and after a
/// failure, no return is emitted.
pub open spec fn returned(result: Result<ExpView, ErrView>, env: EnvView) -> EnvView {
    match result {
        Ok(ExpView::Number(_, handle)) => env.emit(CallView::Ret { value: handle.0 }),
        _ => env,
    }
}

/// A whole program, given by its tokens: the first form is read, what follows
/// it is ignored, the form is evaluated, and its value is returned.
pub open spec fn ran(tokens: Seq<TokenView>, env: EnvView) -> (Result<ExpView, ErrView>, EnvView) {
    let (form, env1) = parsed(tokens, env);
    match form {
        Err(error) => (Err(error), env1),
        Ok((exp, _)) => {
            let (result, env2) = evaluated(exp, env1);
            (result, returned(result, env2))
        },
    }
}

/// Running a program continues the context, whatever the outcome.
pub proof fn lemma_ran_follows(tokens: Seq<TokenView>, env: EnvView)
    requires
        env.wf(),
    ensures
        follows(ran(tokens, env).1, env),
{
    let (form, env1) = parsed(tokens, env);
    lemma_parsed_follows(tokens, env);
    lemma_follows_keeps(env1, env);
    if let Ok((exp, _)) = form {
        let (result, env2) = evaluated(exp, env1);
        lemma_evaluated_follows(exp, env1);
        lemma_follows_keeps(env2, env1);
        lemma_follows_chain(env2, env1, env);
        if let Ok(ExpView::Number(_, handle)) = result {
            lemma_follows_emit(env2, CallView::Ret { value: handle.0 });
            lemma_follows_chain(returned(result, env2), env2, env);
        }
    }
}

/// Reads the program `tokens`, evaluates it and emits the return of its value.
pub fn parse_eval(env: &mut RispEnv, tokens: &[Token]) -> (r: Result<RispExp, RispErr>)
    requires
        old(env)@.wf(),
    ensures
        (outcome(r), final(env)@) == ran(token_views(tokens@), old(env)@),
        follows(final(env)@, old(env)@),
        sound(old(env)@) ==> sound(final(env)@) && outcome_backed(outcome(r), final(env)@),
{
    proof {
        lemma_ran_follows(token_views(tokens@), env@);
        if sound(env@) {
            law_references(token_views(tokens@), env@);
        }
        lemma_parsed_follows(token_views(tokens@), env@);
        lemma_follows_keeps(parsed(token_views(tokens@), env@).1, env@);
    }
    let (parsed_exp, _) = match parse(env, tokens) {
        Ok(form) => form,
        Err(error) => {
            return Err(error);
        },
    };
    let exp = match eval(&parsed_exp, env) {
        Ok(value) => value,
        Err(error) => {
            return Err(error);
        },
    };
    if let RispExp::Number(_, llvm_ref) = &exp {
        let _ = build_ret(&mut env.llvm, llvm_ref.0);
    }
    Ok(exp)
}

} // verus!
