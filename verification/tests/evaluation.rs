use risp::builtin::env::default_env;
use risp::builtin::ops::{apply_builtin, builtin_input, builtin_printf};
use risp::eval::{dispatch, eval, eval_function, get_symbol, parse_eval};
use risp::exp::named;
use risp::host::{HostNum, HostOp};
use risp::ir::backend::{BackendCall, ValueRef};
use risp::reader::{tokenize, Token};
use risp::{Builtin, RispErr, RispExp};

fn host_value(n: &HostNum) -> f64 {
    match n {
        HostNum::Lit(bits) => f64::from_bits(*bits),
        HostNum::Binary(op, lhs, rhs) => {
            let (l, r) = (host_value(lhs), host_value(rhs));
            match op {
                HostOp::Add => l + r,
                HostOp::Sub => l - r,
                HostOp::Mul => l * r,
                HostOp::Div => l / r,
            }
        }
    }
}

fn number_of(line: &str) -> Option<u64> {
    line.parse::<f64>().ok().map(f64::to_bits)
}

fn lex(text: &str) -> Vec<Token> {
    tokenize(text).into_iter().map(|text| Token { number: number_of(&text), text }).collect()
}

fn run(text: &str, lines: &[&str]) -> (Result<RispExp, RispErr>, risp::builtin::env::RispEnv) {
    let mut env = default_env();
    for line in lines {
        env.supply_input(number_of(line));
    }
    let result = parse_eval(&mut env, &lex(text));
    (result, env)
}

fn lit(x: f64) -> HostNum {
    HostNum::Lit(x.to_bits())
}

fn sym(name: &str) -> RispExp {
    RispExp::Symbol(name.to_string())
}

fn s(text: &str) -> String {
    text.to_string()
}

#[test]
fn print_of_input_minus_29() {
    let (result, env) = run("(printf (- (input) 29))", &["50"]);
    let (value, handle) = match result {
        Ok(RispExp::Number(value, handle)) => (value, handle),
        other => panic!("{:?}", other),
    };
    assert_eq!(host_value(&value), 21.0);
    assert_eq!(handle, (ValueRef::At(23), true));

    // What the host wrote: the one value, 21.
    assert_eq!(env.output.len(), 1);
    match &env.output[0] {
        RispExp::Number(written, _) => assert_eq!(host_value(written), 21.0),
        other => panic!("{:?}", other),
    }

    // What the module will do: scan into a slot, subtract, print, return.
    let calls = &env.llvm.calls;
    assert_eq!(calls.len(), 38);
    assert_eq!(
        calls[17],
        BackendCall::Call {
            function: ValueRef::At(2),
            args: vec![ValueRef::At(16), ValueRef::At(7)],
            name: s("")
        }
    );
    assert_eq!(
        calls[23],
        BackendCall::Sub { lhs: ValueRef::At(21), rhs: ValueRef::At(22), name: s("sub_ret") }
    );
    assert_eq!(calls[27], BackendCall::ConstString { bytes: b"Result: %d\n\0".to_vec() });
    assert_eq!(
        calls[36],
        BackendCall::Call {
            function: ValueRef::At(1),
            args: vec![ValueRef::At(35), ValueRef::At(26)],
            name: s("")
        }
    );
    assert_eq!(calls[37], BackendCall::Ret { value: ValueRef::At(23) });
    assert_eq!(env.consumed, 1);
}

#[test]
fn two_inputs_are_read_in_order() {
    let (result, env) = run("(printf (- (input) (+ (input) 29)))", &["100", "1"]);
    match result {
        Ok(RispExp::Number(value, _)) => assert_eq!(host_value(&value), 70.0),
        other => panic!("{:?}", other),
    }
    assert_eq!(env.consumed, 2);
}

#[test]
fn print_keeps_the_order_of_the_operands() {
    let (result, _) = run("(printf (- 92 (input)))", &["2"]);
    match result {
        Ok(RispExp::Number(value, _)) => assert_eq!(host_value(&value), 90.0),
        other => panic!("{:?}", other),
    }
}

#[test]
fn input_that_is_no_number_is_null() {
    let (result, env) = run("(input)", &["fifty"]);
    assert_eq!(result, Ok(RispExp::Null));
    assert_eq!(env.consumed, 1);
    // The scan is emitted all the same, and nothing is returned.
    assert!(matches!(env.llvm.calls.last(), Some(BackendCall::Call { .. })));

    let (result, _) = run("(input)", &[""]);
    assert_eq!(result, Ok(RispExp::Null));
}

#[test]
fn null_is_no_number() {
    let (result, _) = run("(- (input) 29)", &["x"]);
    assert_eq!(result, Err(RispErr::TypeMismatch));
    let (result, env) = run("(printf (input))", &["x"]);
    assert_eq!(result, Ok(RispExp::Null));
    assert_eq!(env.output, vec![RispExp::Null]);
}

#[test]
fn input_without_a_line_left() {
    let (result, env) = run("(input)", &[]);
    assert_eq!(result, Err(RispErr::InputExhausted));
    assert_eq!(env.consumed, 0);
    let (result, env) = run("(+ (input) (input))", &["1"]);
    assert_eq!(result, Err(RispErr::InputExhausted));
    assert_eq!(env.consumed, 1);
}

#[test]
fn input_without_a_location() {
    let mut env = default_env();
    env.supply_input(Some(1.0f64.to_bits()));
    assert_eq!(builtin_input(&mut env, &[], None), Err(RispErr::MissingSlot));
    assert_eq!(env.consumed, 0);
    assert_eq!(
        builtin_input(&mut env, &[RispExp::Null], Some(ValueRef::At(3))),
        Ok(RispExp::Number(lit(1.0), (ValueRef::At(3), false)))
    );
    assert_eq!(env.llvm.calls.len(), 6);
}

#[test]
fn input_ignores_its_argument_forms() {
    let (result, env) = run("(input 1 2)", &["7"]);
    assert_eq!(result.map(|v| matches!(v, RispExp::Number(..))), Ok(true));
    // The arguments were evaluated all the same: two literals read, two lowered.
    assert_eq!(env.llvm.calls.len(), 6 + 2 + 6 + 11 + 1);

    let (result, _) = run("(input nothing)", &["7"]);
    assert!(matches!(result, Ok(RispExp::Number(..))));
}

#[test]
fn arguments_are_evaluated_from_left_to_right_up_to_the_first_failure() {
    let (result, env) = run("(+ 1 nothing (input))", &["3"]);
    assert_eq!(result, Err(RispErr::UnresolvedSymbol(s("nothing"))));
    assert_eq!(env.consumed, 0);
    // One literal was read, at 6, and only the first argument was lowered.
    assert_eq!(env.llvm.calls.len(), 7 + 3);
}

#[test]
fn printf_returns_its_argument() {
    let mut env = default_env();
    let arg = RispExp::Number(lit(3.0), (ValueRef::At(2), false));
    let second = RispExp::Null;
    assert_eq!(
        builtin_printf(&mut env, &[arg.duplicate(), second], Some(ValueRef::At(5))),
        Ok(arg.duplicate())
    );
    assert_eq!(env.output, vec![arg]);
    assert_eq!(builtin_printf(&mut env, &[], None), Ok(RispExp::Null));
    assert_eq!(env.output.len(), 1);
    assert_eq!(env.llvm.calls.len(), 6);
}

#[test]
fn a_symbol_resolves_to_its_binding() {
    let env = default_env();
    assert_eq!(get_symbol(&env, &s("*")), Ok(RispExp::Func(s("*"), Builtin::Mul)));
    assert_eq!(get_symbol(&env, &s("x")), Err(RispErr::UnresolvedSymbol(s("x"))));
    let (result, _) = run("printf", &[]);
    assert_eq!(result, Ok(RispExp::Func(s("printf"), Builtin::Printf)));
}

#[test]
fn the_last_binding_of_a_name_counts() {
    let mut env = default_env();
    env.data.push((s("+"), RispExp::Func(s("*"), Builtin::Mul)));
    assert_eq!(get_symbol(&env, &s("+")), Ok(RispExp::Func(s("*"), Builtin::Mul)));
    match eval(&RispExp::List(vec![sym("+"), sym("+")]), &mut env) {
        Err(RispErr::TypeMismatch) => {}
        other => panic!("{:?}", other),
    }
}

#[test]
fn an_unresolved_symbol() {
    let (result, env) = run("(foo 1 2)", &[]);
    assert_eq!(result, Err(RispErr::UnresolvedSymbol(s("foo"))));
    // The literals were read, and nothing was evaluated.
    assert_eq!(env.llvm.calls.len(), 8);
    let (result, _) = run("x", &[]);
    assert_eq!(result, Err(RispErr::UnresolvedSymbol(s("x"))));
}

#[test]
fn the_first_form_must_be_a_function() {
    let (result, _) = run("(1 2)", &[]);
    assert_eq!(result, Err(RispErr::NotAFunction));
    let (result, _) = run("((+ 1 2) 3)", &[]);
    assert_eq!(result, Err(RispErr::NotAFunction));
    let (result, _) = run("((input))", &["x"]);
    assert_eq!(result, Err(RispErr::NotAFunction));
}

#[test]
fn an_empty_list() {
    let (result, env) = run("()", &[]);
    assert_eq!(result, Err(RispErr::EmptyList));
    assert_eq!(env.llvm.calls.len(), 6);
}

#[test]
fn a_function_outside_call_position() {
    let mut env = default_env();
    let bare = RispExp::Func(s("+"), Builtin::Add);
    assert_eq!(eval(&bare, &mut env), Err(RispErr::UnexpectedForm));
    let call = RispExp::List(vec![RispExp::Func(s("+"), Builtin::Add)]);
    assert_eq!(eval(&call, &mut env), Err(RispErr::UnexpectedForm));
    assert_eq!(env.llvm.calls.len(), 6);
}

#[test]
fn null_evaluates_to_itself() {
    let mut env = default_env();
    assert_eq!(eval(&RispExp::Null, &mut env), Ok(RispExp::Null));
    assert_eq!(env.llvm.calls.len(), 6);
}

#[test]
fn a_number_is_lowered_afresh() {
    let mut env = default_env();
    let stale = RispExp::Number(lit(4.0), (ValueRef::At(1), true));
    assert_eq!(eval(&stale, &mut env), Ok(RispExp::Number(lit(4.0), (ValueRef::At(6), false))));
    assert_eq!(eval(&stale, &mut env), Ok(RispExp::Number(lit(4.0), (ValueRef::At(9), false))));
}

#[test]
fn a_name_without_a_rule_is_not_found() {
    let mut env = default_env();
    assert_eq!(
        dispatch(&mut env, &s("max"), &Builtin::Add, Ok(vec![])),
        Err(RispErr::FunctionNotFound)
    );
    assert_eq!(
        dispatch(&mut env, &s("max"), &Builtin::Add, Err(RispErr::TypeMismatch)),
        Err(RispErr::FunctionNotFound)
    );
    env.data.push((s("max"), RispExp::Func(s("max"), Builtin::Add)));
    assert_eq!(
        eval(&RispExp::List(vec![sym("max"), sym("nothing")]), &mut env),
        Err(RispErr::FunctionNotFound)
    );
    assert_eq!(env.llvm.calls.len(), 6);
}

#[test]
fn the_name_picks_the_strategy_and_the_function_the_operation() {
    let mut env = default_env();
    let two = RispExp::Number(lit(2.0), (ValueRef::At(1), true));
    let three = RispExp::Number(lit(3.0), (ValueRef::At(2), true));
    let r = dispatch(&mut env, &s("+"), &Builtin::Mul, Ok(vec![two, three])).unwrap();
    match r {
        RispExp::Number(value, handle) => {
            assert_eq!(host_value(&value), 6.0);
            assert_eq!(handle, (ValueRef::At(6), false));
        }
        other => panic!("{:?}", other),
    }
    assert_eq!(
        dispatch(&mut env, &s("/"), &Builtin::Input, Ok(vec![])),
        Err(RispErr::MissingSlot)
    );
}

#[test]
fn calling_a_function_on_argument_forms() {
    let mut env = default_env();
    let forms = vec![RispExp::Number(lit(8.0), (ValueRef::Null, false)), RispExp::Null];
    assert_eq!(
        eval_function(&mut env, &s("-"), &Builtin::Sub, &forms),
        Err(RispErr::TypeMismatch)
    );
    let forms = vec![
        RispExp::Number(lit(8.0), (ValueRef::Null, false)),
        RispExp::Number(lit(3.0), (ValueRef::Null, false)),
    ];
    match eval_function(&mut env, &s("-"), &Builtin::Sub, &forms) {
        Ok(RispExp::Number(value, (ValueRef::At(17), true))) => {
            assert_eq!(host_value(&value), 5.0)
        }
        other => panic!("{:?}", other),
    }
}

#[test]
fn only_the_first_form_of_a_program_is_evaluated() {
    let (result, env) = run("(+ 1 2) (input) )", &[]);
    assert!(matches!(result, Ok(RispExp::Number(..))));
    assert_eq!(env.consumed, 0);
}

#[test]
fn a_program_that_does_not_parse() {
    assert_eq!(run("", &[]).0, Err(RispErr::NoToken));
    assert_eq!(run(")", &[]).0, Err(RispErr::UnexpectedClose));
    assert_eq!(run("(+ 1", &[]).0, Err(RispErr::MissingClose));
}

#[test]
fn only_a_number_is_returned() {
    let (_, env) = run("(printf printf)", &[]);
    assert!(!env.llvm.calls.iter().any(|c| matches!(c, BackendCall::Ret { .. })));
    let (_, env) = run("(+ 1", &[]);
    assert!(!env.llvm.calls.iter().any(|c| matches!(c, BackendCall::Ret { .. })));
    let (_, env) = run("7", &[]);
    // The literal is read at 6 and lowered to the slot 7, which is returned as it stands.
    assert_eq!(env.llvm.calls.last(), Some(&BackendCall::Ret { value: ValueRef::At(7) }));
}

#[test]
fn evaluation_only_moves_the_context_forward() {
    for (text, lines) in [
        ("(printf (- (input) (+ (input) 29)))", vec!["5", "6"]),
        ("(+ 1 nothing)", vec![]),
        ("(printf (input))", vec!["x"]),
        ("(input)", vec![]),
        ("(* (/ 2 4) (printf 8))", vec![]),
    ] {
        let mut env = default_env();
        for line in &lines {
            env.supply_input(number_of(line));
        }
        let tokens = lex(text);
        let before_calls = default_env().llvm.calls;
        let _ = parse_eval(&mut env, &tokens);
        assert_eq!(env.llvm.calls[..before_calls.len()], before_calls[..]);
        let moved =
            env.llvm.calls.iter().filter(|c| matches!(c, BackendCall::PositionAtEnd { .. }));
        assert_eq!(moved.count(), 1);
        assert_eq!(env.data, default_env().data);
        assert_eq!(env.built_ins, default_env().built_ins);
        assert!(env.consumed <= env.inputs.len());
        assert_eq!(env.inputs.len(), lines.len());
    }
}

/// The references that a call uses.
fn operands(call: &BackendCall) -> Vec<ValueRef> {
    match call {
        BackendCall::CreateModule { .. }
        | BackendCall::AddFunction { .. }
        | BackendCall::AddGlobal { .. }
        | BackendCall::ConstInt { .. }
        | BackendCall::ConstNumber { .. }
        | BackendCall::ConstString { .. }
        | BackendCall::Alloca { .. } => vec![],
        BackendCall::SetLinkage { global, .. }
        | BackendCall::SetGlobalConstant { global }
        | BackendCall::SetUnnamedAddress { global } => vec![*global],
        BackendCall::SetInitializer { global, value } => vec![*global, *value],
        BackendCall::AppendBlock { function, .. } => vec![*function],
        BackendCall::PositionAtEnd { block } => vec![*block],
        BackendCall::Store { value, target } => vec![*value, *target],
        BackendCall::Load { source, .. } => vec![*source],
        BackendCall::Add { lhs, rhs, .. } | BackendCall::Sub { lhs, rhs, .. } => vec![*lhs, *rhs],
        BackendCall::Ret { value } => vec![*value],
        BackendCall::ConstGep { base, indices } | BackendCall::Gep { base, indices, .. } => {
            let mut all = vec![*base];
            all.extend(indices);
            all
        }
        BackendCall::Call { function, args, .. } => {
            let mut all = vec![*function];
            all.extend(args);
            all
        }
    }
}

#[test]
fn every_reference_is_used_after_it_is_made() {
    for (text, lines) in [
        ("(printf (- (input) (+ (input) 29)))", vec!["5", "6"]),
        ("(printf (* (/ 2 4) (printf 8) (+ 1 2 3)))", vec![]),
        ("(+ (input) (input))", vec!["x", "1"]),
        ("(printf (input))", vec!["x"]),
        ("(- 1 nothing)", vec![]),
    ] {
        let (result, env) = run(text, &lines);
        for (at, call) in env.llvm.calls.iter().enumerate() {
            for operand in operands(call) {
                assert!(matches!(operand, ValueRef::At(made) if made < at), "{} in {}", at, text);
            }
        }
        if let Ok(RispExp::Number(_, (reference, _))) = result {
            assert!(matches!(reference, ValueRef::At(made) if made < env.llvm.calls.len()));
        }
    }
}

#[test]
fn a_run_with_more_lines_continues_the_run_with_fewer() {
    let text = "(printf (- (printf (input)) (+ (input) 29)))";
    let (first, short) = run(text, &["50"]);
    assert_eq!(first, Err(RispErr::InputExhausted));
    let (second, long) = run(text, &["50", "1"]);
    assert!(second.is_ok());
    assert_eq!(long.output[..short.output.len()], short.output[..]);
    assert_eq!(long.output.len(), 2);
}

#[test]
fn any_operation_can_be_applied() {
    let mut env = default_env();
    env.supply_input(None);
    for op in [Builtin::Add, Builtin::Sub, Builtin::Mul, Builtin::Div, Builtin::Printf] {
        let _ = apply_builtin(op, &mut env, &[], None);
    }
    assert_eq!(apply_builtin(Builtin::Input, &mut env, &[], Some(ValueRef::Null)), Ok(RispExp::Null));
    assert_eq!(env.consumed, 1);
}

#[test]
fn names_are_compared_by_their_text() {
    assert!(named(&s("printf"), "printf"));
    assert!(!named(&s("printf"), "print"));
    assert!(named(&s(""), ""));
}
