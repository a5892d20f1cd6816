use risp::exp::TextPiece;
use risp::host::{HostNum, HostOp};
use risp::ir::backend::ValueRef;
use risp::{Builtin, RispErr, RispExp};

fn host_value(n: &HostNum) -> f64 {
    match n {
        HostNum::Lit(bits) => f64::from_bits(*bits),
        HostNum::Binary(op, lhs, rhs) => {
            let (l, r) = (host_value(lhs), host_value(rhs));
            match op {
                HostOp::Add => l + r,
                HostOp::Sub => l - r,
                HostOp::Mul => l * r,
                HostOp::Div => l / r,
            }
        }
    }
}

fn text(exp: &RispExp) -> String {
    exp.render()
        .iter()
        .map(|piece| match piece {
            TextPiece::Text(text) => text.clone(),
            TextPiece::Number(n) => host_value(n).to_string(),
        })
        .collect()
}

fn number(x: f64) -> RispExp {
    RispExp::Number(HostNum::Lit(x.to_bits()), (ValueRef::Null, false))
}

fn sym(name: &str) -> RispExp {
    RispExp::Symbol(name.to_string())
}

#[test]
fn text_of_the_atoms() {
    assert_eq!(text(&RispExp::Null), "null");
    assert_eq!(text(&sym("abc")), "abc");
    assert_eq!(text(&number(21.0)), "21");
    assert_eq!(text(&number(0.125)), "0.125");
    assert_eq!(text(&RispExp::Func("+".to_string(), Builtin::Add)), "Function +");
}

#[test]
fn text_of_a_list_has_commas() {
    assert_eq!(text(&RispExp::List(vec![])), "()");
    assert_eq!(text(&RispExp::List(vec![sym("a")])), "(a)");
    assert_eq!(
        text(&RispExp::List(vec![
            sym("+"),
            number(1.5),
            RispExp::List(vec![sym("x"), RispExp::Null]),
            RispExp::List(vec![]),
        ])),
        "(+,1.5,(x,null),())"
    );
}

#[test]
fn the_pieces_of_a_text() {
    let exp = RispExp::List(vec![sym("a"), number(2.0)]);
    assert_eq!(
        exp.render(),
        vec![
            TextPiece::Text("(".to_string()),
            TextPiece::Text("a".to_string()),
            TextPiece::Text(",".to_string()),
            TextPiece::Number(HostNum::Lit(2.0f64.to_bits())),
            TextPiece::Text(")".to_string()),
        ]
    );
}

#[test]
fn a_copy_is_equal() {
    let exp = RispExp::List(vec![
        sym("a"),
        number(2.0),
        RispExp::Null,
        RispExp::Func("input".to_string(), Builtin::Input),
        RispExp::List(vec![RispExp::List(vec![sym("deep")])]),
    ]);
    assert_eq!(exp.duplicate(), exp);
}

#[test]
fn every_error_says_why() {
    let cases = [
        (RispErr::NoToken, "could not get token"),
        (RispErr::UnexpectedClose, "unexpected `)`"),
        (RispErr::MissingClose, "could not find closing `)`"),
        (RispErr::UnresolvedSymbol("foo".to_string()), "unexpected symbol k='foo'"),
        (RispErr::TypeMismatch, "expected a number"),
        (RispErr::Arity, "Missing argument!"),
        (RispErr::EmptyList, "expected a non-empty list"),
        (RispErr::NotAFunction, "first form must be a function"),
        (RispErr::UnexpectedForm, "unexpected form"),
        (RispErr::FunctionNotFound, "function not found"),
        (RispErr::MissingSlot, "no location to read into"),
        (RispErr::InputExhausted, "no input line left"),
    ];
    for (error, message) in cases {
        assert_eq!(error.message(), message);
    }
}
