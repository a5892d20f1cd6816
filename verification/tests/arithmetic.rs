use risp::builtin::env::default_env;
use risp::builtin::ops::{
    apply_builtin, builtin_add, builtin_div, builtin_mul, builtin_sub,
};
use risp::eval::parse_eval;
use risp::host::{fold, HostNum, HostOp, ONE_BITS, ZERO_BITS};
use risp::ir::backend::ValueRef;
use risp::reader::{tokenize, Token};
use risp::{Builtin, RispErr, RispExp};

fn host_value(n: &HostNum) -> f64 {
    match n {
        HostNum::Lit(bits) => f64::from_bits(*bits),
        HostNum::Binary(op, lhs, rhs) => {
            let (l, r) = (host_value(lhs), host_value(rhs));
            match op {
                HostOp::Add => l + r,
                HostOp::Sub => l - r,
                HostOp::Mul => l * r,
                HostOp::Div => l / r,
            }
        }
    }
}

fn lex(text: &str) -> Vec<Token> {
    tokenize(text)
        .into_iter()
        .map(|text| Token { number: text.parse::<f64>().ok().map(f64::to_bits), text })
        .collect()
}

fn value_of(text: &str) -> f64 {
    let mut env = default_env();
    match parse_eval(&mut env, &lex(text)) {
        Ok(RispExp::Number(n, _)) => host_value(&n),
        other => panic!("not a number: {:?}", other),
    }
}

fn error_of(text: &str) -> RispErr {
    let mut env = default_env();
    match parse_eval(&mut env, &lex(text)) {
        Err(error) => error,
        other => panic!("not an error: {:?}", other),
    }
}

fn lit(x: f64) -> HostNum {
    HostNum::Lit(x.to_bits())
}

fn number(x: f64) -> RispExp {
    RispExp::Number(lit(x), (ValueRef::Null, true))
}

fn bin(op: HostOp, lhs: HostNum, rhs: HostNum) -> HostNum {
    HostNum::Binary(op, Box::new(lhs), Box::new(rhs))
}

#[test]
fn bit_patterns_of_zero_and_one() {
    assert_eq!(f64::from_bits(ZERO_BITS), 0.0);
    assert_eq!(f64::from_bits(ONE_BITS), 1.0);
    assert_eq!(HostNum::zero(), HostNum::Lit(0));
    assert_eq!(HostNum::one(), HostNum::Lit(0x3FF0_0000_0000_0000));
}

#[test]
fn fold_goes_from_the_left() {
    let xs = vec![lit(2.0), lit(4.0)];
    let folded = fold(HostOp::Div, lit(1.0), &xs);
    assert_eq!(folded, bin(HostOp::Div, bin(HostOp::Div, lit(1.0), lit(2.0)), lit(4.0)));
    assert_eq!(fold(HostOp::Add, lit(7.0), &[]), lit(7.0));
}

#[test]
fn duplicate_copies_the_whole_expression() {
    let n = bin(HostOp::Sub, lit(1.5), bin(HostOp::Mul, lit(2.0), lit(3.0)));
    assert_eq!(n.duplicate(), n);
    assert_eq!(lit(1.0).apply(HostOp::Add, lit(2.0)), bin(HostOp::Add, lit(1.0), lit(2.0)));
}

#[test]
fn addition_of_two() {
    assert_eq!(value_of("(+ 1 2)"), 3.0);
    assert_eq!(value_of("(+ 1.5 -4)"), -2.5);
}

#[test]
fn addition_is_seeded_with_zero() {
    let mut env = default_env();
    let r = builtin_add(&mut env, &[number(1.0), number(2.0)], None).unwrap();
    match r {
        RispExp::Number(n, _) => assert_eq!(
            n,
            bin(HostOp::Add, bin(HostOp::Add, lit(0.0), lit(1.0)), lit(2.0))
        ),
        other => panic!("{:?}", other),
    }
}

#[test]
fn addition_counts_every_argument() {
    assert_eq!(value_of("(+ 1 2 3 4)"), 10.0);
}

#[test]
fn subtraction_takes_the_sum_of_the_rest() {
    assert_eq!(value_of("(- 10 2)"), 8.0);
    assert_eq!(value_of("(- 10 2 3)"), 5.0);
    let mut env = default_env();
    let r = builtin_sub(&mut env, &[number(10.0), number(2.0), number(3.0)], None).unwrap();
    match r {
        RispExp::Number(n, _) => assert_eq!(
            n,
            bin(
                HostOp::Sub,
                lit(10.0),
                bin(HostOp::Add, bin(HostOp::Add, lit(0.0), lit(2.0)), lit(3.0))
            )
        ),
        other => panic!("{:?}", other),
    }
}

#[test]
fn product_of_all() {
    assert_eq!(value_of("(* 2 3 4)"), 24.0);
    assert_eq!(value_of("(* 5)"), 5.0);
}

#[test]
fn division_folds_from_one() {
    assert_eq!(value_of("(/ 2 4)"), 0.125);
    assert_eq!(value_of("(/ 4)"), 0.25);
    assert_eq!(value_of("(/)"), 1.0);
}

#[test]
fn empty_product_is_one() {
    assert_eq!(value_of("(*)"), 1.0);
    assert_eq!(value_of("(* )"), 1.0);
}

#[test]
fn empty_sum_is_an_arity_violation() {
    assert_eq!(error_of("(+ )"), RispErr::Arity);
    assert_eq!(error_of("(+ 1)"), RispErr::Arity);
    assert_eq!(error_of("(-)"), RispErr::Arity);
    assert_eq!(error_of("(- 1)"), RispErr::Arity);
}

#[test]
fn arity_violation_emits_nothing() {
    let mut env = default_env();
    let before = env.llvm.calls.len();
    assert_eq!(builtin_add(&mut env, &[number(1.0)], None), Err(RispErr::Arity));
    assert_eq!(env.llvm.calls.len(), before);
}

#[test]
fn arguments_must_be_numbers() {
    assert_eq!(error_of("(+ 1 +)"), RispErr::TypeMismatch);
    assert_eq!(error_of("(* printf)"), RispErr::TypeMismatch);
    assert_eq!(error_of("(/ 1 (printf))"), RispErr::TypeMismatch);
    let mut env = default_env();
    assert_eq!(
        builtin_sub(&mut env, &[RispExp::Null], None),
        Err(RispErr::TypeMismatch)
    );
    assert_eq!(
        builtin_mul(&mut env, &[number(1.0), RispExp::Null], None),
        Err(RispErr::TypeMismatch)
    );
    assert_eq!(
        builtin_div(&mut env, &[RispExp::Symbol("x".to_string())], None),
        Err(RispErr::TypeMismatch)
    );
}

#[test]
fn nested_arithmetic() {
    assert_eq!(value_of("(+ (* 2 3) (- 10 4))"), 12.0);
    assert_eq!(value_of("(- (+ 1 2) (* 1 1) (/ 2))"), 1.5);
}

#[test]
fn product_with_a_reference_is_materialized_in_it() {
    let mut env = default_env();
    let before = env.llvm.calls.len();
    let r = apply_builtin(
        Builtin::Mul,
        &mut env,
        &[number(2.0), number(3.0)],
        Some(ValueRef::At(4)),
    )
    .unwrap();
    match r {
        RispExp::Number(n, handle) => {
            assert_eq!(host_value(&n), 6.0);
            assert_eq!(handle, (ValueRef::At(4), true));
        }
        other => panic!("{:?}", other),
    }
    assert_eq!(env.llvm.calls.len(), before);
}

#[test]
fn product_without_a_reference_gets_a_fresh_slot() {
    let mut env = default_env();
    let before = env.llvm.calls.len();
    let r = apply_builtin(Builtin::Div, &mut env, &[number(2.0)], None).unwrap();
    match r {
        RispExp::Number(n, handle) => {
            assert_eq!(host_value(&n), 0.5);
            assert_eq!(handle, (ValueRef::At(before), false));
        }
        other => panic!("{:?}", other),
    }
    assert_eq!(env.llvm.calls.len(), before + 3);
}
