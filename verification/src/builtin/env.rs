//! The generation context: the symbol table, the backend, the registry of
//! declared external functions, and the host's input and output.

use vstd::prelude::*;
use vstd::string::*;
use crate::exp::{Builtin, ExpView, RispExp, named};
use crate::ir::backend::{Backend, CallView, FunctionTypeView, IrType, ValueRef, next_ref};
use crate::ir::block::append_basic_block_in_context;
use crate::ir::llvm_type::{
    function_type, function_type_var_arg, int32_type, int8_type, pointer_type,
};
use crate::ir::operate::{add_function, build_position_at_end};
use crate::references::{law_default_sound, sound};

verus! {

/// The generation context. One exists per program run and owns the backend for
/// as long as it lives.
#[derive(Debug, PartialEq, Eq)]
pub struct RispEnv {
    /// The symbol table. Where a name is bound more than once, the last binding
    /// counts.
    pub data: Vec<(String, RispExp)>,
    /// The backend context, module and builder.
    pub llvm: Backend,
    /// The declared external functions, by built-in name; the last entry of a
    /// name counts.
    pub built_ins: Vec<(String, ValueRef)>,
    /// The lines available on standard input, in order: for each the bit pattern
    /// of the number it spells, or `None` if it spells none.
    pub inputs: Vec<Option<u64>>,
    /// How many of `inputs` have been read.
    pub consumed: usize,
    /// The values written to standard output, in order.
    pub output: Vec<RispExp>,
}

/// What a [`RispEnv`] holds.
pub struct EnvView {
    pub data: Seq<(Seq<char>, ExpView)>,
    pub llvm: Seq<CallView>,
    pub built_ins: Seq<(Seq<char>, ValueRef)>,
    pub inputs: Seq<Option<u64>>,
    pub consumed: nat,
    pub output: Seq<ExpView>,
}

/// The bindings of a symbol table, by their views.
pub open spec fn table_view(data: Seq<(String, RispExp)>) -> Seq<(Seq<char>, ExpView)> {
    Seq::new(data.len(), |i: int| (data[i].0@, data[i].1@))
}

/// The entries of a registry, by their views.
pub open spec fn registry_view(entries: Seq<(String, ValueRef)>) -> Seq<(Seq<char>, ValueRef)> {
    Seq::new(entries.len(), |i: int| (entries[i].0@, entries[i].1))
}

/// The values of a list, by their views.
pub open spec fn output_view(values: Seq<RispExp>) -> Seq<ExpView> {
    Seq::new(values.len(), |i: int| values[i]@)
}

impl View for RispEnv {
    type V = EnvView;

    open spec fn view(&self) -> EnvView {
        EnvView {
            data: table_view(self.data@),
            llvm: self.llvm@,
            built_ins: registry_view(self.built_ins@),
            inputs: self.inputs@,
            consumed: self.consumed as nat,
            output: output_view(self.output@),
        }
    }
}

/// What `name` is bound to in `table`: the value of its last entry, if it has
/// one.
pub open spec fn lookup<V>(table: Seq<(Seq<char>, V)>, name: Seq<char>) -> Option<V>
    decreases table.len(),
{
    if table.len() == 0 {
        None
    } else if table.last().0 == name {
        Some(table.last().1)
    } else {
        lookup(table.drop_last(), name)
    }
}

/// An entry added at the end is found first.
pub proof fn lemma_lookup_push<V>(table: Seq<(Seq<char>, V)>, entry: (Seq<char>, V), name: Seq<char>)
    ensures
        lookup(table.push(entry), name) == if entry.0 == name {
            Some(entry.1)
        } else {
            lookup(table, name)
        },
{
    assert(table.push(entry).drop_last() =~= table);
}

impl EnvView {
    /// The context after `call` was recorded.
    pub open spec fn emit(self, call: CallView) -> EnvView {
        EnvView { llvm: self.llvm.push(call), ..self }
    }

    /// The context after `calls` were recorded.
    pub open spec fn emit_all(self, calls: Seq<CallView>) -> EnvView {
        EnvView { llvm: self.llvm + calls, ..self }
    }

    /// The external function declared for the built-in `name`.
    pub open spec fn builtin(self, name: Seq<char>) -> Option<ValueRef> {
        lookup(self.built_ins, name)
    }

    /// The context is usable for evaluation: both external functions are
    /// declared and no more input was read than there is.
    pub open spec fn wf(self) -> bool {
        &&& self.builtin("printf"@) is Some
        &&& self.builtin("input"@) is Some
        &&& self.consumed <= self.inputs.len()
    }
}

/// The type of the external print function: variadic, one pointer, 8-bit result.
pub open spec fn printf_type() -> FunctionTypeView {
    FunctionTypeView { ret: IrType::Int8, params: seq![IrType::Pointer], var_arg: true }
}

/// The type of the external scan function: variadic, one pointer, 32-bit result.
pub open spec fn scanf_type() -> FunctionTypeView {
    FunctionTypeView { ret: IrType::Int32, params: seq![IrType::Pointer], var_arg: true }
}

/// The type of the program's entry function: no parameters, 32-bit result.
pub open spec fn main_type() -> FunctionTypeView {
    FunctionTypeView { ret: IrType::Int32, params: Seq::empty(), var_arg: false }
}

/// Declares the external formatted-print function.
pub fn create_printf(module: &mut Backend) -> (r: ValueRef)
    ensures
        final(module)@ == old(module)@.push(
            CallView::AddFunction { ty: printf_type(), name: "printf"@ },
        ),
        r == next_ref(old(module)@),
{
    let mut args_type_list: Vec<IrType> = Vec::new();
    args_type_list.push(pointer_type());
    let printf_type = function_type_var_arg(int8_type(), args_type_list);
    proof {
        assert(printf_type@.params =~= seq![IrType::Pointer]);
    }
    add_function(module, printf_type, "printf")
}

/// Declares the external formatted-scan function.
pub fn create_input_fn(module: &mut Backend) -> (r: ValueRef)
    ensures
        final(module)@ == old(module)@.push(
            CallView::AddFunction { ty: scanf_type(), name: "scanf"@ },
        ),
        r == next_ref(old(module)@),
{
    let mut args_type_list: Vec<IrType> = Vec::new();
    args_type_list.push(pointer_type());
    let fn_type = function_type_var_arg(int32_type(), args_type_list);
    proof {
        assert(fn_type@.params =~= seq![IrType::Pointer]);
    }
    add_function(module, fn_type, "scanf")
}

/// The declaration of the external function of the built-in `name`, if it has
/// one: `printf` stands for the print function and `input` for the scan
/// function.
pub open spec fn declaration(name: Seq<char>) -> Option<CallView> {
    if name == "printf"@ {
        Some(CallView::AddFunction { ty: printf_type(), name: "printf"@ })
    } else if name == "input"@ {
        Some(CallView::AddFunction { ty: scanf_type(), name: "scanf"@ })
    } else {
        None
    }
}

/// Declaring the built-in `name` in `env`: the external function and the
/// context after it. A built-in that is in the registry is returned as it is;
/// one that is not is declared in the module and entered in the registry.
pub open spec fn declared(env: EnvView, name: Seq<char>) -> (Option<ValueRef>, EnvView) {
    if env.builtin(name) is Some {
        (env.builtin(name), env)
    } else {
        match declaration(name) {
            Some(call) => (
                Some(next_ref(env.llvm)),
                EnvView {
                    llvm: env.llvm.push(call),
                    built_ins: env.built_ins.push((name, next_ref(env.llvm))),
                    ..env
                },
            ),
            None => (None, env),
        }
    }
}

/// Declaring a built-in a second time changes nothing and returns the same
/// function.
pub proof fn law_declared_once(env: EnvView, name: Seq<char>)
    ensures
        declared(declared(env, name).1, name) == declared(env, name),
{
    let (first, env1) = declared(env, name);
    if env1 != env {
        lemma_lookup_push(env.built_ins, (name, next_ref(env.llvm)), name);
    }
}

/// The recording of a context that was just set up, before any evaluation.
pub open spec fn initial_calls() -> Seq<CallView> {
    seq![
        CallView::CreateModule { name: "main_module"@ },
        CallView::AddFunction { ty: printf_type(), name: "printf"@ },
        CallView::AddFunction { ty: scanf_type(), name: "scanf"@ },
        CallView::AddFunction { ty: main_type(), name: "main"@ },
        CallView::AppendBlock { function: ValueRef::At(3), name: "entry"@ },
        CallView::PositionAtEnd { block: ValueRef::At(4) },
    ]
}

/// The registry of a context that was just set up.
pub open spec fn initial_registry() -> Seq<(Seq<char>, ValueRef)> {
    seq![("printf"@, ValueRef::At(1)), ("input"@, ValueRef::At(2))]
}

impl RispEnv {
    /// A context with the symbol table `data`: a fresh backend in which both
    /// external functions are declared and the entry block of `main` is open,
    /// no input, and nothing written.
    pub fn new(data: Vec<(String, RispExp)>) -> (env: RispEnv)
        ensures
            env@ == (EnvView {
                data: table_view(data@),
                llvm: initial_calls(),
                built_ins: initial_registry(),
                inputs: Seq::empty(),
                consumed: 0,
                output: Seq::empty(),
            }),
            env@.wf(),
    {
        let mut env = RispEnv {
            data,
            llvm: Backend::new("main_module"),
            built_ins: Vec::new(),
            inputs: Vec::new(),
            consumed: 0,
            output: Vec::new(),
        };
        proof {
            assert(env@.built_ins =~= Seq::empty());
            assert(env@.output =~= Seq::empty());
            reveal_strlit("printf");
            reveal_strlit("input");
            assert("printf"@.len() != "input"@.len());
            lemma_lookup_push(Seq::empty(), ("printf"@, ValueRef::At(1)), "input"@);
        }
        env.setup_builtin();
        let _ = env.setup_main();
        proof {
            assert(env@.llvm =~= initial_calls());
            assert(env@.built_ins =~= initial_registry());
            lemma_initial_registry();
        }
        env
    }

    /// Declares the external function of the built-in `name`, unless it is
    /// declared already, and returns it. Nothing is declared twice, and nothing
    /// at all for a name that is no built-in with an external function.
    pub fn declare_builtin(&mut self, name: &str) -> (r: Option<ValueRef>)
        ensures
            (r, final(self)@) == declared(old(self)@, name@),
    {
        let found = self.builtin(name);
        if found.is_some() {
            return found;
        }
        let wanted = String::from_str(name);
        let function = if named(&wanted, "printf") {
            create_printf(&mut self.llvm)
        } else if named(&wanted, "input") {
            create_input_fn(&mut self.llvm)
        } else {
            return None;
        };
        self.built_ins.push((wanted, function));
        proof {
            assert(self@.built_ins =~= old(self)@.built_ins.push((name@, function)));
            assert(self@.data =~= old(self)@.data);
            assert(self@.output =~= old(self)@.output);
        }
        Some(function)
    }

    /// Declares the external print and scan functions in the module and enters
    /// them in the registry under `printf` and `input`, each unless it is
    /// there already.
    pub fn setup_builtin(&mut self)
        ensures
            final(self)@ == declared(declared(old(self)@, "printf"@).1, "input"@).1,
    {
        let _ = self.declare_builtin("printf");
        let _ = self.declare_builtin("input");
    }

    /// Declares `main`, appends its entry block and puts the insertion point at
    /// the end of it. Returns the block and the function.
    pub fn setup_main(&mut self) -> (r: (ValueRef, ValueRef))
        ensures
            final(self)@ == (EnvView {
                llvm: old(self)@.llvm.push(
                    CallView::AddFunction { ty: main_type(), name: "main"@ },
                ).push(
                    CallView::AppendBlock { function: next_ref(old(self)@.llvm), name: "entry"@ },
                ).push(CallView::PositionAtEnd { block: r.0 }),
                ..old(self)@
            }),
            r.1 == next_ref(old(self)@.llvm),
            r.0 == next_ref(
                old(self)@.llvm.push(CallView::AddFunction { ty: main_type(), name: "main"@ }),
            ),
    {
        let fn_type = function_type(int32_type(), Vec::new());
        let main_function = add_function(&mut self.llvm, fn_type, "main");
        let block = append_basic_block_in_context(&mut self.llvm, main_function, "entry");
        build_position_at_end(&mut self.llvm, block);
        (block, main_function)
    }
}

impl RispEnv {
    /// The external function declared for the built-in `name`.
    pub fn builtin(&self, name: &str) -> (r: Option<ValueRef>)
        ensures
            r == self@.builtin(name@),
    {
        let wanted = String::from_str(name);
        let mut i: usize = self.built_ins.len();
        proof {
            assert(self@.built_ins.take(i as int) =~= self@.built_ins);
        }
        while i > 0
            invariant
                i <= self.built_ins.len(),
                wanted@ == name@,
                lookup(self@.built_ins, name@) == lookup(self@.built_ins.take(i as int), name@),
            decreases i,
        {
            i = i - 1;
            proof {
                assert(self@.built_ins.take(i + 1).drop_last() =~= self@.built_ins.take(i as int));
            }
            if self.built_ins[i].0 == wanted {
                return Some(self.built_ins[i].1);
            }
        }
        None
    }
}

/// The symbol table of the language: each operator and built-in bound to its
/// operation.
pub open spec fn default_table() -> Seq<(Seq<char>, ExpView)> {
    seq![
        ("+"@, ExpView::Func("+"@, Builtin::Add)),
        ("-"@, ExpView::Func("-"@, Builtin::Sub)),
        ("*"@, ExpView::Func("*"@, Builtin::Mul)),
        ("/"@, ExpView::Func("/"@, Builtin::Div)),
        ("printf"@, ExpView::Func("printf"@, Builtin::Printf)),
        ("input"@, ExpView::Func("input"@, Builtin::Input)),
    ]
}

/// The context a program starts in.
pub open spec fn default_view() -> EnvView {
    EnvView {
        data: default_table(),
        llvm: initial_calls(),
        built_ins: initial_registry(),
        inputs: Seq::empty(),
        consumed: 0,
        output: Seq::empty(),
    }
}

/// The entry of the symbol table that binds `name` to `op`.
fn binding(name: &str, op: Builtin) -> (r: (String, RispExp))
    ensures
        r.0@ == name@,
        r.1@ == ExpView::Func(name@, op),
{
    (String::from_str(name), RispExp::Func(String::from_str(name), op))
}

/// The context a program starts in: the six built-in operations in the symbol
/// table, and a backend set up as by [`RispEnv::new`].
pub fn default_env() -> (env: RispEnv)
    ensures
        env@ == default_view(),
        env@.wf(),
        sound(env@),
{
    proof {
        law_default_sound();
    }
    let mut data: Vec<(String, RispExp)> = Vec::new();
    data.push(binding("+", Builtin::Add));
    data.push(binding("-", Builtin::Sub));
    data.push(binding("*", Builtin::Mul));
    data.push(binding("/", Builtin::Div));
    data.push(binding("printf", Builtin::Printf));
    data.push(binding("input", Builtin::Input));
    proof {
        assert(table_view(data@) =~= default_table());
    }
    RispEnv::new(data)
}

impl RispEnv {
    /// Makes `line` the next unread line of standard input after those already
    /// supplied: the bit pattern of the number it spells, or `None`.
    pub fn supply_input(&mut self, line: Option<u64>)
        ensures
            final(self)@ == (EnvView { inputs: old(self)@.inputs.push(line), ..old(self)@ }),
            old(self)@.wf() ==> final(self)@.wf(),
    {
        self.inputs.push(line);
    }
}

/// Both external functions are in the initial registry.
pub proof fn lemma_initial_registry()
    ensures
        lookup(initial_registry(), "printf"@) == Some(ValueRef::At(1)),
        lookup(initial_registry(), "input"@) == Some(ValueRef::At(2)),
{
    reveal_strlit("printf");
    reveal_strlit("input");
    let none = Seq::<(Seq<char>, ValueRef)>::empty();
    let first = none.push(("printf"@, ValueRef::At(1)));
    assert(initial_registry() =~= first.push(("input"@, ValueRef::At(2))));
    assert("printf"@.len() != "input"@.len());
    lemma_lookup_push(none, ("printf"@, ValueRef::At(1)), "printf"@);
    lemma_lookup_push(first, ("input"@, ValueRef::At(2)), "printf"@);
    lemma_lookup_push(first, ("input"@, ValueRef::At(2)), "input"@);
}

} // verus!
