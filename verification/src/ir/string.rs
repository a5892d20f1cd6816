//! Integer and string constants.

use vstd::prelude::*;
use vstd::string::*;
use crate::builtin::env::RispEnv;
use crate::ir::backend::{
    Backend, BackendCall, CallView, IrType, Linkage, ValueRef, next_ref,
};
use crate::ir::llvm_type::int32_type;
use crate::ir::operate::{build_const_gep, const_gep_calls};
use crate::ir::scope::{
    add_global, set_global_constant, set_initializer, set_linkage, set_unnamed_address, type_of,
};

verus! {

/// The integer constant `value` of type `llvm_type`.
pub fn const_int(context: &mut Backend, llvm_type: IrType, value: u64) -> (r: ValueRef)
    ensures
        final(context)@ == old(context)@.push(CallView::ConstInt { ty: llvm_type, value }),
        r == next_ref(old(context)@),
{
    context.record(BackendCall::ConstInt { ty: llvm_type, value })
}

/// `s` with every occurrence of the two bytes `first`, `second` replaced by the
/// byte `with`, scanning from the left and never overlapping.
pub open spec fn replace_pair(s: Seq<u8>, first: u8, second: u8, with: u8) -> Seq<u8>
    decreases s.len(),
{
    if s.len() == 0 {
        s
    } else if s.len() >= 2 && s[0] == first && s[1] == second {
        seq![with] + replace_pair(s.skip(2), first, second, with)
    } else {
        seq![s[0]] + replace_pair(s.skip(1), first, second, with)
    }
}

/// The bytes of the string constant written as `text`: its UTF-8 encoding with
/// the escapes backslash-`n` and backslash-`r` turned into a line feed and a
/// carriage return, in that order, and a NUL at the end.
pub open spec fn string_constant_bytes(text: Seq<char>) -> Seq<u8> {
    replace_pair(
        replace_pair(vstd::utf8::encode_utf8(text), 0x5C, 0x6E, 0x0A),
        0x5C,
        0x72,
        0x0D,
    ).push(0)
}

/// Replaces the pair `first`, `second` by `with` throughout `s`.
pub fn replace_byte_pair(s: &Vec<u8>, first: u8, second: u8, with: u8) -> (r: Vec<u8>)
    ensures
        r@ == replace_pair(s@, first, second, with),
{
    let mut out: Vec<u8> = Vec::new();
    let mut i: usize = 0;
    proof {
        assert(s@.skip(0) =~= s@);
        assert(out@ + replace_pair(s@, first, second, with) =~= replace_pair(
            s@,
            first,
            second,
            with,
        ));
    }
    while i < s.len()
        invariant
            i <= s.len(),
            out@ + replace_pair(s@.skip(i as int), first, second, with) == replace_pair(
                s@,
                first,
                second,
                with,
            ),
        decreases s.len() - i,
    {
        let ghost rest = s@.skip(i as int);
        if i + 1 < s.len() && s[i] == first && s[i + 1] == second {
            proof {
                assert(rest.skip(2) =~= s@.skip(i + 2));
                assert(out@.push(with) + replace_pair(s@.skip(i + 2), first, second, with)
                    =~= out@ + replace_pair(rest, first, second, with));
            }
            out.push(with);
            i = i + 2;
        } else {
            proof {
                assert(rest.skip(1) =~= s@.skip(i + 1));
                assert(out@.push(s@[i as int]) + replace_pair(
                    s@.skip(i + 1),
                    first,
                    second,
                    with,
                ) =~= out@ + replace_pair(rest, first, second, with));
            }
            out.push(s[i]);
            i = i + 1;
        }
    }
    proof {
        assert(s@.skip(s.len() as int) =~= Seq::<u8>::empty());
        assert(out@ + Seq::<u8>::empty() =~= out@);
    }
    out
}

/// The constant array holding the bytes of the string constant `input_str`.
pub fn const_string_in_context(context: &mut Backend, input_str: String) -> (r: ValueRef)
    ensures
        final(context)@ == old(context)@.push(
            CallView::ConstString { bytes: string_constant_bytes(input_str@) },
        ),
        r == next_ref(old(context)@),
{
    let raw = input_str.as_str().as_bytes_vec();
    let lf = replace_byte_pair(&raw, 0x5C, 0x6E, 0x0A);
    let mut bytes = replace_byte_pair(&lf, 0x5C, 0x72, 0x0D);
    bytes.push(0);
    context.record(BackendCall::ConstString { bytes })
}

/// The calls that define the private constant global `name` holding the string
/// constant `text`, on a recording of length `at`: the constant array, the
/// global of its type, then its linkage, initial value and the two marks.
pub open spec fn global_string_calls(at: nat, text: Seq<char>, name: Seq<char>) -> Seq<CallView> {
    let bytes = string_constant_bytes(text);
    let constant = ValueRef::At(at as usize);
    let global = ValueRef::At((at + 1) as usize);
    seq![
        CallView::ConstString { bytes },
        CallView::AddGlobal { ty: IrType::Array(bytes.len() as usize), name },
        CallView::SetLinkage { global, linkage: Linkage::Private },
        CallView::SetInitializer { global, value: constant },
        CallView::SetGlobalConstant { global },
        CallView::SetUnnamedAddress { global },
    ]
}

/// The calls of [`codegen_string`] on a recording of length `at`: the global
/// string, then the constant address of its first byte.
pub open spec fn string_calls(at: nat, text: Seq<char>, name: Seq<char>) -> Seq<CallView> {
    global_string_calls(at, text, name) + const_gep_calls(
        at + 6,
        ValueRef::At((at + 1) as usize),
    )
}

/// The calls of [`codegen_string_gep`] on a recording of length `at`: the
/// global string, two 32-bit zero constants, then the instruction `name` that
/// takes the address of its first byte.
pub open spec fn string_gep_calls(at: nat, text: Seq<char>, name: Seq<char>) -> Seq<CallView> {
    global_string_calls(at, text, name) + seq![
        CallView::ConstInt { ty: IrType::Int32, value: 0 },
        CallView::ConstInt { ty: IrType::Int32, value: 0 },
        CallView::Gep {
            base: ValueRef::At((at + 1) as usize),
            indices: seq![ValueRef::At((at + 6) as usize), ValueRef::At((at + 7) as usize)],
            name,
        },
    ]
}

/// Defines the global string and returns the reference of the global.
fn global_string(context: &mut Backend, input_str: &str, name: &str) -> (global: ValueRef)
    ensures
        final(context)@ == old(context)@ + global_string_calls(
            old(context)@.len(),
            input_str@,
            name@,
        ),
        global == ValueRef::At((old(context)@.len() + 1) as usize),
{
    let ghost before = context@;
    let str_val = const_string_in_context(context, String::from_str(input_str));
    proof {
        assert(context@[before.len() as int] == CallView::ConstString {
            bytes: string_constant_bytes(input_str@),
        });
        context.lemma_bounded();
    }
    let ty = type_of(context, str_val).unwrap();
    let global_str_val = add_global(context, ty, name);
    set_linkage(context, global_str_val, Linkage::Private);
    set_initializer(context, global_str_val, str_val);
    set_global_constant(context, global_str_val);
    set_unnamed_address(context, global_str_val);
    proof {
        assert(context@ =~= before + global_string_calls(before.len(), input_str@, name@));
    }
    global_str_val
}

/// Puts the string constant `input_str` into the module as the private global
/// `name` and returns the constant address of its first byte.
pub fn codegen_string(lc: &mut RispEnv, input_str: &str, name: &str) -> (r: ValueRef)
    ensures
        final(lc)@ == old(lc)@.emit_all(
            string_calls(old(lc)@.llvm.len(), input_str@, name@),
        ),
        r == ValueRef::At((old(lc)@.llvm.len() + 8) as usize),
{
    let ghost before = lc@.llvm;
    let global_str_val = global_string(&mut lc.llvm, input_str, name);
    let r = build_const_gep(&mut lc.llvm, global_str_val);
    proof {
        assert(lc@.llvm =~= before + string_calls(before.len(), input_str@, name@));
    }
    r
}

/// Puts the string constant `input_str` into the module as the private global
/// `name` and emits the instruction `name` that takes the address of its first
/// byte.
pub fn codegen_string_gep(lc: &mut RispEnv, input_str: &str, name: &str) -> (r: ValueRef)
    ensures
        final(lc)@ == old(lc)@.emit_all(
            string_gep_calls(old(lc)@.llvm.len(), input_str@, name@),
        ),
        r == ValueRef::At((old(lc)@.llvm.len() + 8) as usize),
{
    let ghost before = lc@.llvm;
    let global_str_val = global_string(&mut lc.llvm, input_str, name);
    let first = const_int(&mut lc.llvm, int32_type(), 0);
    let second = const_int(&mut lc.llvm, int32_type(), 0);
    let mut indices: Vec<ValueRef> = Vec::new();
    indices.push(first);
    indices.push(second);
    proof {
        assert(indices@ =~= seq![first, second]);
    }
    let r = lc.llvm.record(
        BackendCall::Gep { base: global_str_val, indices, name: String::from_str(name) },
    );
    proof {
        assert(lc@.llvm =~= before + string_gep_calls(before.len(), input_str@, name@));
    }
    r
}

} // verus!
