//! The recorded backend.
//!
//! Every primitive of the IR builder appends one [`BackendCall`] to the
//! [`Backend`]. A call that creates a value is named afterwards by its position
//! in the recording, so a reference handed out once stays valid and no two calls
//! share one. Replaying the recording, in order, against a real builder yields
//! the module.

use vstd::prelude::*;
use vstd::string::*;
use crate::host::HostNum;

verus! {

/// A first-class type of the backend.
#[derive(Clone, Copy, Debug, PartialEq, Eq, Structural)]
pub enum IrType {
    /// 8-bit integer.
    Int8,
    /// 32-bit integer.
    Int32,
    /// Pointer to an 8-bit integer.
    Pointer,
    /// Array of that many 8-bit integers.
    Array(usize),
}

/// A reference to a backend value.
#[derive(Clone, Copy, Debug, PartialEq, Eq, Structural)]
pub enum ValueRef {
    /// The null reference.
    Null,
    /// The value created by the call at this position of the recording.
    At(usize),
}

/// Linkage of a global.
#[derive(Clone, Copy, Debug, PartialEq, Eq, Structural)]
pub enum Linkage {
    External,
    Private,
}

/// A function type.
#[derive(Debug, PartialEq, Eq)]
pub struct FunctionType {
    pub ret: IrType,
    pub params: Vec<IrType>,
    pub var_arg: bool,
}

/// What a [`FunctionType`] holds.
pub struct FunctionTypeView {
    pub ret: IrType,
    pub params: Seq<IrType>,
    pub var_arg: bool,
}

impl View for FunctionType {
    type V = FunctionTypeView;

    open spec fn view(&self) -> FunctionTypeView {
        FunctionTypeView { ret: self.ret, params: self.params@, var_arg: self.var_arg }
    }
}

/// One call on the backend.
#[derive(Debug, PartialEq, Eq)]
#[allow(inconsistent_fields)]
pub enum BackendCall {
    /// Creates the context, the module of this name and the builder.
    CreateModule { name: String },
    /// Declares a function in the module.
    AddFunction { ty: FunctionType, name: String },
    /// Declares a global in the module.
    AddGlobal { ty: IrType, name: String },
    SetLinkage { global: ValueRef, linkage: Linkage },
    SetInitializer { global: ValueRef, value: ValueRef },
    SetGlobalConstant { global: ValueRef },
    SetUnnamedAddress { global: ValueRef },
    /// Appends a basic block to a function.
    AppendBlock { function: ValueRef, name: String },
    /// Moves the insertion point to the end of a block.
    PositionAtEnd { block: ValueRef },
    /// An integer constant.
    ConstInt { ty: IrType, value: u64 },
    /// The 32-bit integer constant that a host number converts to.
    ConstNumber { value: HostNum },
    /// A constant array of bytes.
    ConstString { bytes: Vec<u8> },
    /// The address of an element of a constant, in bounds.
    ConstGep { base: ValueRef, indices: Vec<ValueRef> },
    /// Reserves a stack slot.
    Alloca { ty: IrType, name: String },
    Store { value: ValueRef, target: ValueRef },
    Load { source: ValueRef, name: String },
    Add { lhs: ValueRef, rhs: ValueRef, name: String },
    Sub { lhs: ValueRef, rhs: ValueRef, name: String },
    /// The address of an element, computed by an instruction.
    Gep { base: ValueRef, indices: Vec<ValueRef>, name: String },
    Call { function: ValueRef, args: Vec<ValueRef>, name: String },
    Ret { value: ValueRef },
}

/// What a [`BackendCall`] holds.
#[allow(inconsistent_fields)]
pub enum CallView {
    CreateModule { name: Seq<char> },
    AddFunction { ty: FunctionTypeView, name: Seq<char> },
    AddGlobal { ty: IrType, name: Seq<char> },
    SetLinkage { global: ValueRef, linkage: Linkage },
    SetInitializer { global: ValueRef, value: ValueRef },
    SetGlobalConstant { global: ValueRef },
    SetUnnamedAddress { global: ValueRef },
    AppendBlock { function: ValueRef, name: Seq<char> },
    PositionAtEnd { block: ValueRef },
    ConstInt { ty: IrType, value: u64 },
    ConstNumber { value: HostNum },
    ConstString { bytes: Seq<u8> },
    ConstGep { base: ValueRef, indices: Seq<ValueRef> },
    Alloca { ty: IrType, name: Seq<char> },
    Store { value: ValueRef, target: ValueRef },
    Load { source: ValueRef, name: Seq<char> },
    Add { lhs: ValueRef, rhs: ValueRef, name: Seq<char> },
    Sub { lhs: ValueRef, rhs: ValueRef, name: Seq<char> },
    Gep { base: ValueRef, indices: Seq<ValueRef>, name: Seq<char> },
    Call { function: ValueRef, args: Seq<ValueRef>, name: Seq<char> },
    Ret { value: ValueRef },
}

impl View for BackendCall {
    type V = CallView;

    open spec fn view(&self) -> CallView {
        match *self {
            BackendCall::CreateModule { name } => CallView::CreateModule { name: name@ },
            BackendCall::AddFunction { ty, name } => CallView::AddFunction { ty: ty@, name: name@ },
            BackendCall::AddGlobal { ty, name } => CallView::AddGlobal { ty, name: name@ },
            BackendCall::SetLinkage { global, linkage } => CallView::SetLinkage { global, linkage },
            BackendCall::SetInitializer { global, value } => CallView::SetInitializer {
                global,
                value,
            },
            BackendCall::SetGlobalConstant { global } => CallView::SetGlobalConstant { global },
            BackendCall::SetUnnamedAddress { global } => CallView::SetUnnamedAddress { global },
            BackendCall::AppendBlock { function, name } => CallView::AppendBlock {
                function,
                name: name@,
            },
            BackendCall::PositionAtEnd { block } => CallView::PositionAtEnd { block },
            BackendCall::ConstInt { ty, value } => CallView::ConstInt { ty, value },
            BackendCall::ConstNumber { value } => CallView::ConstNumber { value },
            BackendCall::ConstString { bytes } => CallView::ConstString { bytes: bytes@ },
            BackendCall::ConstGep { base, indices } => CallView::ConstGep {
                base,
                indices: indices@,
            },
            BackendCall::Alloca { ty, name } => CallView::Alloca { ty, name: name@ },
            BackendCall::Store { value, target } => CallView::Store { value, target },
            BackendCall::Load { source, name } => CallView::Load { source, name: name@ },
            BackendCall::Add { lhs, rhs, name } => CallView::Add { lhs, rhs, name: name@ },
            BackendCall::Sub { lhs, rhs, name } => CallView::Sub { lhs, rhs, name: name@ },
            BackendCall::Gep { base, indices, name } => CallView::Gep {
                base,
                indices: indices@,
                name: name@,
            },
            BackendCall::Call { function, args, name } => CallView::Call {
                function,
                args: args@,
                name: name@,
            },
            BackendCall::Ret { value } => CallView::Ret { value },
        }
    }
}

/// The backend context, module and builder, as the recording of the calls made
/// on them.
#[derive(Debug, PartialEq, Eq)]
pub struct Backend {
    pub calls: Vec<BackendCall>,
}

impl View for Backend {
    type V = Seq<CallView>;

    open spec fn view(&self) -> Seq<CallView> {
        Seq::new(self.calls@.len(), |i: int| self.calls@[i]@)
    }
}

/// The reference that the next value-creating call on a recording of this
/// length will return.
pub open spec fn next_ref(calls: Seq<CallView>) -> ValueRef {
    ValueRef::At(calls.len() as usize)
}

/// The block at whose end the builder stands: the one named by the last
/// positioning call, or `Null` if there was none.
pub open spec fn current_block(calls: Seq<CallView>) -> ValueRef
    decreases calls.len(),
{
    if calls.len() == 0 {
        ValueRef::Null
    } else {
        match calls.last() {
            CallView::PositionAtEnd { block } => block,
            _ => current_block(calls.drop_last()),
        }
    }
}

impl Backend {
    /// A fresh context, a module named `name` in it, and a builder: the
    /// recording starts with their creation.
    pub fn new(name: &str) -> (r: Backend)
        ensures
            r@ == seq![CallView::CreateModule { name: name@ }],
    {
        let mut calls: Vec<BackendCall> = Vec::new();
        calls.push(BackendCall::CreateModule { name: String::from_str(name) });
        let r = Backend { calls };
        proof {
            assert(r@ =~= seq![CallView::CreateModule { name: name@ }]);
        }
        r
    }

    /// A recording is no longer than a vector can be.
    pub proof fn lemma_bounded(self)
        ensures
            self@.len() <= usize::MAX,
    {
        assert(self@.len() == self.calls.len());
    }

    /// Number of calls recorded.
    pub fn len(&self) -> (n: usize)
        ensures
            n == self@.len(),
    {
        self.calls.len()
    }

    /// Appends `call` and returns the reference of the value it creates.
    pub fn record(&mut self, call: BackendCall) -> (r: ValueRef)
        ensures
            final(self)@ == old(self)@.push(call@),
            r == next_ref(old(self)@),
    {
        let at = self.calls.len();
        self.calls.push(call);
        proof {
            assert(self@ =~= old(self)@.push(call@));
        }
        ValueRef::At(at)
    }
}

} // verus!
