use risp::builtin::env::default_env;
use risp::host::HostNum;
use risp::ir::backend::{BackendCall, ValueRef};
use risp::reader::{char_is_space, parse, parse_atom, read_seq, tokenize, Token};
use risp::{RispErr, RispExp};

fn lex(text: &str) -> Vec<Token> {
    tokenize(text)
        .into_iter()
        .map(|text| Token { number: text.parse::<f64>().ok().map(f64::to_bits), text })
        .collect()
}

fn words(tokens: &[&str]) -> Vec<String> {
    tokens.iter().map(|t| t.to_string()).collect()
}

fn sym(name: &str) -> RispExp {
    RispExp::Symbol(name.to_string())
}

/// The tokens that a form writes back, numbers by their bit patterns.
fn written(exp: &RispExp, out: &mut Vec<String>) {
    match exp {
        RispExp::Symbol(name) => out.push(name.clone()),
        RispExp::Number(HostNum::Lit(bits), _) => out.push(format!("#{}", bits)),
        RispExp::List(items) => {
            out.push("(".to_string());
            for item in items {
                written(item, out);
            }
            out.push(")".to_string());
        }
        other => panic!("not read from text: {:?}", other),
    }
}

fn shape(tokens: &[Token]) -> Vec<String> {
    tokens
        .iter()
        .map(|t| match (t.text.as_str(), t.number) {
            ("(", _) | (")", _) => t.text.clone(),
            (_, Some(bits)) => format!("#{}", bits),
            (_, None) => t.text.clone(),
        })
        .collect()
}

#[test]
fn tokens_of_a_call() {
    assert_eq!(tokenize("(+ 1 2)"), words(&["(", "+", "1", "2", ")"]));
}

#[test]
fn parentheses_need_no_space() {
    assert_eq!(
        tokenize("(printf(- (input)29))"),
        words(&["(", "printf", "(", "-", "(", "input", ")", "29", ")", ")"])
    );
    assert_eq!(tokenize(")("), words(&[")", "("]));
}

#[test]
fn white_space_of_any_kind_separates() {
    assert_eq!(tokenize("  a\tb\nc\r\n d\u{3000}e\u{a0}f  "), words(&["a", "b", "c", "d", "e", "f"]));
    assert_eq!(tokenize(""), words(&[]));
    assert_eq!(tokenize(" \t\n"), words(&[]));
    assert_eq!(tokenize("abc"), words(&["abc"]));
}

#[test]
fn white_space_is_what_the_standard_library_says() {
    for n in 0..0x3100u32 {
        if let Some(c) = char::from_u32(n) {
            assert_eq!(char_is_space(c), c.is_whitespace(), "U+{:04X}", n);
        }
    }
}

#[test]
fn tokens_agree_with_splitting_on_white_space() {
    for text in ["(+ 1 2)", "(a(b)c)", " x  y ", "((", "é (ü) ß", "a\u{2003}b"] {
        let expected: Vec<String> = text
            .replace("(", " ( ")
            .replace(")", " ) ")
            .split_whitespace()
            .map(|x| x.to_string())
            .collect();
        assert_eq!(tokenize(text), expected);
    }
}

#[test]
fn writing_tokens_out_and_reading_them_back() {
    for text in ["(printf (- (input) 29))", "  (a(b   c)\n)d ", ""] {
        let tokens = tokenize(text);
        let spaced: String = tokens.iter().map(|t| format!("{} ", t)).collect();
        assert_eq!(tokenize(&spaced), tokens);
    }
}

#[test]
fn an_atom_is_a_number_or_a_symbol() {
    let mut env = default_env();
    let before = env.llvm.calls.len();
    let word = Token { text: "abc".to_string(), number: None };
    assert_eq!(parse_atom(&mut env, &word), sym("abc"));
    assert_eq!(env.llvm.calls.len(), before);

    let bits = 2.5f64.to_bits();
    let two = Token { text: "2.5".to_string(), number: Some(bits) };
    assert_eq!(
        parse_atom(&mut env, &two),
        RispExp::Number(HostNum::Lit(bits), (ValueRef::At(before), false))
    );
    assert_eq!(
        env.llvm.calls[before],
        BackendCall::ConstNumber { value: HostNum::Lit(bits) }
    );
    assert_eq!(env.llvm.calls.len(), before + 1);
}

#[test]
fn parse_reads_one_form_and_leaves_the_rest() {
    let mut env = default_env();
    let tokens = lex("(+ a (b)) c d");
    let (form, rest) = parse(&mut env, &tokens).unwrap();
    assert_eq!(
        form,
        RispExp::List(vec![sym("+"), sym("a"), RispExp::List(vec![sym("b")])])
    );
    assert_eq!(rest, &tokens[7..]);

    let (atom, rest) = parse(&mut env, rest).unwrap();
    assert_eq!(atom, sym("c"));
    assert_eq!(rest.len(), 1);
}

#[test]
fn parse_of_an_empty_list() {
    let mut env = default_env();
    let tokens = lex("()");
    let (form, rest) = parse(&mut env, &tokens).unwrap();
    assert_eq!(form, RispExp::List(vec![]));
    assert!(rest.is_empty());
}

#[test]
fn parse_without_tokens() {
    let mut env = default_env();
    assert_eq!(parse(&mut env, &[]), Err(RispErr::NoToken));
}

#[test]
fn parse_of_a_closing_parenthesis() {
    let mut env = default_env();
    assert_eq!(parse(&mut env, &lex(") a")), Err(RispErr::UnexpectedClose));
}

#[test]
fn parse_of_an_unclosed_list() {
    let mut env = default_env();
    assert_eq!(parse(&mut env, &lex("(+ 1 (2)")), Err(RispErr::MissingClose));
    assert_eq!(parse(&mut env, &lex("(")), Err(RispErr::MissingClose));
    assert_eq!(read_seq(&mut env, &[]), Err(RispErr::MissingClose));
}

#[test]
fn read_seq_reads_up_to_the_closing_parenthesis() {
    let mut env = default_env();
    let tokens = lex("a b) c");
    let (form, rest) = read_seq(&mut env, &tokens).unwrap();
    assert_eq!(form, RispExp::List(vec![sym("a"), sym("b")]));
    assert_eq!(rest, &tokens[3..]);
}

#[test]
fn a_form_writes_back_the_tokens_it_was_read_from() {
    for text in ["(printf (- (input) 29))", "(+ 1 (* 2 3) x) y", "7", "(()())"] {
        let mut env = default_env();
        let tokens = lex(text);
        let (form, rest) = parse(&mut env, &tokens).unwrap();
        let mut back = Vec::new();
        written(&form, &mut back);
        back.extend(shape(rest));
        assert_eq!(back, shape(&tokens));
    }
}
