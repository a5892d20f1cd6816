use risp::builtin::env::{create_input_fn, create_printf, default_env, RispEnv};
use risp::builtin::ir::{
    eval_arithmetic, eval_input_fn, eval_number, eval_printf_fn, load_llvm_value,
    parse_list_of_floats, parse_single_float, unwrap_object, wrap_llvm_value,
};
use risp::eval::parse_eval;
use risp::host::HostNum;
use risp::ir::backend::{Backend, BackendCall, FunctionType, IrType, Linkage, ValueRef};
use risp::ir::block::append_basic_block_in_context;
use risp::ir::llvm_type::{
    function_type, function_type_var_arg, int32_type, int8_type, pointer_type,
};
use risp::ir::operate::{
    add_function, build_add, build_alloca, build_const_gep, build_int32_value, build_load,
    build_position_at_end, build_ret, build_store, build_sub, call_function, llvm_int_value,
};
use risp::ir::scope::{
    add_global, set_global_constant, set_initializer, set_linkage, set_unnamed_address, type_of,
};
use risp::ir::string::{
    codegen_string, codegen_string_gep, const_int, const_string_in_context, replace_byte_pair,
};
use risp::reader::{tokenize, Token};
use risp::{Builtin, RispErr, RispExp};

fn lex(text: &str) -> Vec<Token> {
    tokenize(text)
        .into_iter()
        .map(|text| Token { number: text.parse::<f64>().ok().map(f64::to_bits), text })
        .collect()
}

fn lit(x: f64) -> HostNum {
    HostNum::Lit(x.to_bits())
}

fn at(i: usize) -> ValueRef {
    ValueRef::At(i)
}

fn s(text: &str) -> String {
    text.to_string()
}

fn alloca(name: &str) -> BackendCall {
    BackendCall::Alloca { ty: IrType::Int32, name: s(name) }
}

fn load(source: usize) -> BackendCall {
    BackendCall::Load { source: at(source), name: s("") }
}

/// The calls that define the string `bytes` on a recording of length `n`.
fn string_calls(n: usize, bytes: &[u8]) -> Vec<BackendCall> {
    vec![
        BackendCall::ConstString { bytes: bytes.to_vec() },
        BackendCall::AddGlobal { ty: IrType::Array(bytes.len()), name: s("") },
        BackendCall::SetLinkage { global: at(n + 1), linkage: Linkage::Private },
        BackendCall::SetInitializer { global: at(n + 1), value: at(n) },
        BackendCall::SetGlobalConstant { global: at(n + 1) },
        BackendCall::SetUnnamedAddress { global: at(n + 1) },
        BackendCall::ConstInt { ty: IrType::Int32, value: 0 },
        BackendCall::ConstInt { ty: IrType::Int32, value: 0 },
        BackendCall::ConstGep { base: at(n + 1), indices: vec![at(n + 6), at(n + 7)] },
    ]
}

fn var_arg(ret: IrType) -> FunctionType {
    FunctionType { ret, params: vec![IrType::Pointer], var_arg: true }
}

fn initial_calls() -> Vec<BackendCall> {
    vec![
        BackendCall::CreateModule { name: s("main_module") },
        BackendCall::AddFunction { ty: var_arg(IrType::Int8), name: s("printf") },
        BackendCall::AddFunction { ty: var_arg(IrType::Int32), name: s("scanf") },
        BackendCall::AddFunction {
            ty: FunctionType { ret: IrType::Int32, params: vec![], var_arg: false },
            name: s("main"),
        },
        BackendCall::AppendBlock { function: at(3), name: s("entry") },
        BackendCall::PositionAtEnd { block: at(4) },
    ]
}

#[test]
fn a_recording_starts_with_the_module() {
    let backend = Backend::new("m");
    assert_eq!(backend.calls, vec![BackendCall::CreateModule { name: s("m") }]);
    assert_eq!(backend.len(), 1);
}

#[test]
fn a_call_is_named_by_its_position() {
    let mut backend = Backend::new("m");
    let first = backend.record(BackendCall::Ret { value: ValueRef::Null });
    let second = backend.record(BackendCall::Ret { value: first });
    assert_eq!((first, second), (at(1), at(2)));
    assert_eq!(backend.calls[2], BackendCall::Ret { value: at(1) });
}

#[test]
fn the_types() {
    assert_eq!(int8_type(), IrType::Int8);
    assert_eq!(int32_type(), IrType::Int32);
    assert_eq!(pointer_type(), IrType::Pointer);
    assert_eq!(
        function_type(IrType::Int32, vec![IrType::Int8]),
        FunctionType { ret: IrType::Int32, params: vec![IrType::Int8], var_arg: false }
    );
    assert_eq!(function_type_var_arg(IrType::Int8, vec![IrType::Pointer]), var_arg(IrType::Int8));
}

#[test]
fn every_primitive_records_one_call() {
    let mut b = Backend::new("m");
    let f = add_function(&mut b, function_type(IrType::Int32, vec![]), "f");
    let block = append_basic_block_in_context(&mut b, f, "entry");
    build_position_at_end(&mut b, block);
    let slot = build_alloca(&mut b, IrType::Int32, "x");
    let seven = const_int(&mut b, IrType::Int32, 7);
    let store = build_store(&mut b, seven, slot);
    let loaded = build_load(&mut b, slot, "y");
    let sum = build_add(&mut b, loaded, seven, "s");
    let diff = build_sub(&mut b, sum, loaded, "d");
    let call = call_function(&mut b, f, vec![diff], "c");
    let ret = build_ret(&mut b, call);
    let number = build_int32_value(&mut b, &lit(3.0));
    let global = add_global(&mut b, IrType::Array(2), "g");
    set_linkage(&mut b, global, Linkage::External);
    set_initializer(&mut b, global, number);
    set_global_constant(&mut b, global);
    set_unnamed_address(&mut b, global);
    assert_eq!(
        (f, block, slot, seven, store, loaded, sum, diff, call, ret, number, global),
        (at(1), at(2), at(4), at(5), at(6), at(7), at(8), at(9), at(10), at(11), at(12), at(13))
    );
    assert_eq!(
        b.calls[1..],
        [
            BackendCall::AddFunction {
                ty: FunctionType { ret: IrType::Int32, params: vec![], var_arg: false },
                name: s("f")
            },
            BackendCall::AppendBlock { function: at(1), name: s("entry") },
            BackendCall::PositionAtEnd { block: at(2) },
            BackendCall::Alloca { ty: IrType::Int32, name: s("x") },
            BackendCall::ConstInt { ty: IrType::Int32, value: 7 },
            BackendCall::Store { value: at(5), target: at(4) },
            BackendCall::Load { source: at(4), name: s("y") },
            BackendCall::Add { lhs: at(7), rhs: at(5), name: s("s") },
            BackendCall::Sub { lhs: at(8), rhs: at(7), name: s("d") },
            BackendCall::Call { function: at(1), args: vec![at(9)], name: s("c") },
            BackendCall::Ret { value: at(10) },
            BackendCall::ConstNumber { value: lit(3.0) },
            BackendCall::AddGlobal { ty: IrType::Array(2), name: s("g") },
            BackendCall::SetLinkage { global: at(13), linkage: Linkage::External },
            BackendCall::SetInitializer { global: at(13), value: at(12) },
            BackendCall::SetGlobalConstant { global: at(13) },
            BackendCall::SetUnnamedAddress { global: at(13) },
        ]
    );
}

#[test]
fn the_first_element_of_a_constant() {
    let mut b = Backend::new("m");
    let r = build_const_gep(&mut b, at(0));
    assert_eq!(r, at(3));
    assert_eq!(
        b.calls[1..],
        [
            BackendCall::ConstInt { ty: IrType::Int32, value: 0 },
            BackendCall::ConstInt { ty: IrType::Int32, value: 0 },
            BackendCall::ConstGep { base: at(0), indices: vec![at(1), at(2)] },
        ]
    );
}

#[test]
fn escapes_in_string_constants() {
    assert_eq!(replace_byte_pair(&b"a\\nb\\n".to_vec(), b'\\', b'n', b'\n'), b"a\nb\n".to_vec());
    assert_eq!(replace_byte_pair(&b"\\\\n\\".to_vec(), b'\\', b'n', b'\n'), b"\\\n\\".to_vec());
    assert_eq!(replace_byte_pair(&b"".to_vec(), b'\\', b'n', b'\n'), b"".to_vec());

    let mut b = Backend::new("m");
    let r = const_string_in_context(&mut b, s("x\\ny\\rz\n"));
    assert_eq!(r, at(1));
    assert_eq!(b.calls[1], BackendCall::ConstString { bytes: b"x\ny\rz\n\0".to_vec() });
    for text in ["Result: %d\n", "%u", "a\\nb", "\\r\\n\\", "é\\n"] {
        let mut b = Backend::new("m");
        const_string_in_context(&mut b, s(text));
        let expected = (text.replace("\\n", "\u{A}").replace("\\r", "\u{D}") + "\0").into_bytes();
        assert_eq!(b.calls[1], BackendCall::ConstString { bytes: expected });
    }
}

#[test]
fn the_type_of_a_constant() {
    let mut b = Backend::new("m");
    let text = const_string_in_context(&mut b, s("abc"));
    let int = const_int(&mut b, IrType::Int8, 1);
    let number = build_int32_value(&mut b, &lit(1.0));
    let slot = build_alloca(&mut b, IrType::Int32, "");
    assert_eq!(type_of(&b, text), Some(IrType::Array(4)));
    assert_eq!(type_of(&b, int), Some(IrType::Int8));
    assert_eq!(type_of(&b, number), Some(IrType::Int32));
    assert_eq!(type_of(&b, slot), None);
    assert_eq!(type_of(&b, ValueRef::Null), None);
    assert_eq!(type_of(&b, at(99)), None);
}

#[test]
fn a_string_in_the_module() {
    let mut env = default_env();
    let r = codegen_string(&mut env, "%u", "fmt");
    assert_eq!(r, at(14));
    let mut expected = string_calls(6, b"%u\0");
    expected[1] = BackendCall::AddGlobal { ty: IrType::Array(3), name: s("fmt") };
    assert_eq!(env.llvm.calls[6..], expected[..]);
}

#[test]
fn a_string_addressed_by_an_instruction() {
    let mut env = default_env();
    let r = codegen_string_gep(&mut env, "%u", "fmt");
    assert_eq!(r, at(14));
    let mut expected = string_calls(6, b"%u\0");
    expected[1] = BackendCall::AddGlobal { ty: IrType::Array(3), name: s("fmt") };
    expected[8] =
        BackendCall::Gep { base: at(7), indices: vec![at(12), at(13)], name: s("fmt") };
    assert_eq!(env.llvm.calls[6..], expected[..]);
}

#[test]
fn the_external_functions() {
    let mut b = Backend::new("m");
    assert_eq!(create_printf(&mut b), at(1));
    assert_eq!(create_input_fn(&mut b), at(2));
    assert_eq!(b.calls[1..], initial_calls()[1..3]);
}

#[test]
fn the_context_a_program_starts_in() {
    let env = default_env();
    assert_eq!(env.llvm.calls, initial_calls());
    assert_eq!(env.builtin("printf"), Some(at(1)));
    assert_eq!(env.builtin("input"), Some(at(2)));
    assert_eq!(env.builtin("scanf"), None);
    assert_eq!(env.data.len(), 6);
    for (name, op) in [
        ("+", Builtin::Add),
        ("-", Builtin::Sub),
        ("*", Builtin::Mul),
        ("/", Builtin::Div),
        ("printf", Builtin::Printf),
        ("input", Builtin::Input),
    ] {
        assert!(env.data.contains(&(s(name), RispExp::Func(s(name), op))));
    }
    assert!(env.inputs.is_empty() && env.output.is_empty());
    assert_eq!(env.consumed, 0);
}

#[test]
fn a_built_in_is_declared_once() {
    let mut env = default_env();
    let before = env.llvm.calls.len();
    assert_eq!(env.declare_builtin("printf"), Some(at(1)));
    assert_eq!(env.declare_builtin("input"), Some(at(2)));
    assert_eq!(env.declare_builtin("puts"), None);
    env.setup_builtin();
    assert_eq!(env.llvm.calls.len(), before);
    assert_eq!(env.built_ins.len(), 2);

    let mut bare = RispEnv {
        data: vec![],
        llvm: Backend::new("m"),
        built_ins: vec![],
        inputs: vec![],
        consumed: 0,
        output: vec![],
    };
    assert_eq!(bare.declare_builtin("input"), Some(at(1)));
    assert_eq!(bare.declare_builtin("input"), Some(at(1)));
    assert_eq!(bare.llvm.calls.len(), 2);
    assert_eq!(bare.setup_main(), (at(3), at(2)));
}

#[test]
fn wrapping_and_unwrapping() {
    let n = wrap_llvm_value(lit(4.0), (at(9), true));
    assert_eq!(n, RispExp::Number(lit(4.0), (at(9), true)));
    assert_eq!(unwrap_object(&n), at(9));
    assert_eq!(parse_single_float(&n), Ok(lit(4.0)));
    assert_eq!(parse_single_float(&RispExp::Null), Err(RispErr::TypeMismatch));
    assert_eq!(parse_list_of_floats(&[]), Ok(vec![]));
    assert_eq!(
        parse_list_of_floats(&[n, wrap_llvm_value(lit(5.0), (ValueRef::Null, false))]),
        Ok(vec![lit(4.0), lit(5.0)])
    );
    assert_eq!(
        parse_list_of_floats(&[wrap_llvm_value(lit(5.0), (at(1), false)), RispExp::List(vec![])]),
        Err(RispErr::TypeMismatch)
    );
}

#[test]
fn lowering_a_number_reserves_a_slot() {
    let mut env = default_env();
    let n = eval_number(&mut env, lit(29.0));
    assert_eq!(n, RispExp::Number(lit(29.0), (at(6), false)));
    assert_eq!(
        env.llvm.calls[6..],
        [
            alloca(""),
            BackendCall::ConstNumber { value: lit(29.0) },
            BackendCall::Store { value: at(7), target: at(6) },
        ]
    );
    let slot = llvm_int_value(&mut env, "x", &lit(1.0));
    assert_eq!(slot, at(9));
    assert_eq!(
        env.llvm.calls[9..],
        [
            alloca("x"),
            BackendCall::ConstNumber { value: lit(1.0) },
            BackendCall::Store { value: at(10), target: at(9) },
        ]
    );
}

#[test]
fn the_same_literal_twice_gets_two_slots() {
    let mut env = default_env();
    let first = eval_number(&mut env, lit(5.0));
    let after_first = env.llvm.calls.len();
    let second = eval_number(&mut env, lit(5.0));
    assert_eq!(first, RispExp::Number(lit(5.0), (at(6), false)));
    assert_eq!(second, RispExp::Number(lit(5.0), (at(9), false)));
    assert_eq!(env.llvm.calls[..after_first], {
        let mut again = default_env();
        eval_number(&mut again, lit(5.0));
        again.llvm.calls
    }[..]);
}

#[test]
fn materializing_loads_only_what_is_not_materialized() {
    let mut env = default_env();
    assert_eq!(load_llvm_value(&mut env, &RispExp::Number(lit(1.0), (at(3), true))), at(3));
    assert_eq!(load_llvm_value(&mut env, &RispExp::Null), ValueRef::Null);
    assert_eq!(load_llvm_value(&mut env, &RispExp::Symbol(s("x"))), ValueRef::Null);
    assert_eq!(env.llvm.calls.len(), 6);

    let stored = RispExp::Number(lit(1.0), (at(3), false));
    assert_eq!(load_llvm_value(&mut env, &stored), at(6));
    assert_eq!(load_llvm_value(&mut env, &stored), at(7));
    assert_eq!(env.llvm.calls[6..], [load(3), load(3)]);
}

#[test]
fn addition_emits_one_add_of_the_first_two() {
    let mut env = default_env();
    let r = parse_eval(&mut env, &lex("(+ 1 2 3)")).unwrap();
    // The three literals are read at 6, 7, 8 and lowered to the slots 9, 12, 15.
    match r {
        RispExp::Number(_, handle) => assert_eq!(handle, (at(20), true)),
        other => panic!("{:?}", other),
    }
    assert_eq!(
        env.llvm.calls[18..],
        [
            load(9),
            load(12),
            BackendCall::Add { lhs: at(18), rhs: at(19), name: s("add_ret") },
            BackendCall::Ret { value: at(20) },
        ]
    );
    let adds = env.llvm.calls.iter().filter(|c| matches!(c, BackendCall::Add { .. })).count();
    assert_eq!(adds, 1);
}

#[test]
fn subtraction_emits_one_subtract_of_the_first_two() {
    let mut env = default_env();
    parse_eval(&mut env, &lex("(- 9 2 3)")).unwrap();
    assert_eq!(
        env.llvm.calls[18..],
        [
            load(9),
            load(12),
            BackendCall::Sub { lhs: at(18), rhs: at(19), name: s("sub_ret") },
            BackendCall::Ret { value: at(20) },
        ]
    );
}

#[test]
fn a_materialized_operand_is_not_loaded() {
    let mut env = default_env();
    parse_eval(&mut env, &lex("(+ (+ 1 2) 4)")).unwrap();
    // Read: 6, 7, 8. Inner call: slots 9 and 12, loads 15 and 16, add 17.
    // Outer call: slot 18 for the literal, whose load is 21.
    assert_eq!(
        env.llvm.calls[21..],
        [
            load(18),
            BackendCall::Add { lhs: at(17), rhs: at(21), name: s("add_ret") },
            BackendCall::Ret { value: at(22) },
        ]
    );
}

#[test]
fn a_product_is_returned_from_its_slot() {
    let mut env = default_env();
    let r = parse_eval(&mut env, &lex("(* 2 3)")).unwrap();
    match r {
        RispExp::Number(_, handle) => assert_eq!(handle, (at(14), false)),
        other => panic!("{:?}", other),
    }
    assert!(matches!(env.llvm.calls[15], BackendCall::ConstNumber { .. }));
    assert_eq!(
        env.llvm.calls[16..],
        [BackendCall::Store { value: at(15), target: at(14) }, BackendCall::Ret { value: at(14) }]
    );
}

#[test]
fn the_arithmetic_strategy_supplies_no_reference() {
    let mut env = default_env();
    let args = vec![RispExp::Number(lit(2.0), (at(1), true))];
    let r = eval_arithmetic(&mut env, "*", &Builtin::Mul, Ok(args)).unwrap();
    assert!(matches!(r, RispExp::Number(_, (ValueRef::At(6), false))));
    assert_eq!(
        eval_arithmetic(&mut env, "*", &Builtin::Mul, Err(RispErr::EmptyList)),
        Err(RispErr::EmptyList)
    );
}

#[test]
fn the_print_strategy() {
    let mut env = default_env();
    let arg = RispExp::Number(lit(21.0), (at(3), false));
    let r = eval_printf_fn(&mut env, &Builtin::Printf, Ok(vec![arg])).unwrap();
    assert_eq!(r, RispExp::Number(lit(21.0), (at(3), false)));
    let mut expected = vec![
        alloca(""),
        load(3),
        BackendCall::Store { value: at(7), target: at(6) },
        load(6),
    ];
    expected.extend(string_calls(10, b"Result: %d\n\0"));
    expected.push(BackendCall::Call { function: at(1), args: vec![at(18), at(9)], name: s("") });
    assert_eq!(env.llvm.calls[6..], expected[..]);
    assert_eq!(env.output, vec![RispExp::Number(lit(21.0), (at(3), false))]);
}

#[test]
fn the_print_strategy_hands_the_loaded_value_on() {
    let mut env = default_env();
    let arg = RispExp::Number(lit(2.0), (at(3), true));
    let r = eval_printf_fn(&mut env, &Builtin::Mul, Ok(vec![arg])).unwrap();
    // Nothing to load for a materialized argument: slot 6, store 7, load 8.
    assert!(matches!(r, RispExp::Number(_, (ValueRef::At(8), true))));
}

#[test]
fn printing_what_is_no_number_emits_nothing() {
    let mut env = default_env();
    let r = eval_printf_fn(&mut env, &Builtin::Printf, Ok(vec![RispExp::Null]));
    assert_eq!(r, Ok(RispExp::Null));
    assert_eq!(env.llvm.calls.len(), 6);
    assert_eq!(env.output, vec![RispExp::Null]);

    assert_eq!(eval_printf_fn(&mut env, &Builtin::Printf, Ok(vec![])), Ok(RispExp::Null));
    assert_eq!(env.output.len(), 1);
    assert_eq!(
        eval_printf_fn(&mut env, &Builtin::Printf, Err(RispErr::TypeMismatch)),
        Err(RispErr::TypeMismatch)
    );
    assert_eq!(env.llvm.calls.len(), 6);
}

#[test]
fn the_input_strategy() {
    let mut env = default_env();
    env.supply_input(Some(50.0f64.to_bits()));
    let r = eval_input_fn(&mut env, &Builtin::Input).unwrap();
    assert_eq!(r, RispExp::Number(lit(50.0), (at(6), false)));
    let mut expected = vec![alloca("input")];
    expected.extend(string_calls(7, b"%u\0"));
    expected.push(BackendCall::Call { function: at(2), args: vec![at(15), at(6)], name: s("") });
    assert_eq!(env.llvm.calls[6..], expected[..]);
    assert_eq!(env.consumed, 1);
}
