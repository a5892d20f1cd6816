//! Host numbers.
//!
//! The language has a single numeric type, the IEEE-754 double. Verified code has
//! no floating-point arithmetic, so a host number is kept as the exact expression
//! that computes it: literals are given by their bit patterns and every operation
//! the evaluator performs is recorded as a node. Whoever owns a floating-point
//! unit evaluates the expression; nothing in this crate rounds, reorders or
//! simplifies it.

use vstd::prelude::*;

verus! {

/// Bit pattern of `0.0`.
pub const ZERO_BITS: u64 = 0;

/// Bit pattern of `1.0`.
pub const ONE_BITS: u64 = 0x3FF0_0000_0000_0000;

/// A binary floating-point operation.
#[derive(Clone, Copy, Debug, PartialEq, Eq, Structural)]
pub enum HostOp {
    Add,
    Sub,
    Mul,
    Div,
}

/// A host number: a literal, or one operation applied to two host numbers.
#[derive(Debug, PartialEq, Eq)]
pub enum HostNum {
    /// The double with this bit pattern.
    Lit(u64),
    /// `op(lhs, rhs)`, evaluated in double precision.
    Binary(HostOp, Box<HostNum>, Box<HostNum>),
}

/// `op(lhs, rhs)` as a host number.
pub open spec fn binary(op: HostOp, lhs: HostNum, rhs: HostNum) -> HostNum {
    HostNum::Binary(op, Box::new(lhs), Box::new(rhs))
}

/// Left fold of `op` over `xs`, starting from `seed`:
/// `op(... op(op(seed, xs[0]), xs[1]) ..., xs[n-1])`.
pub open spec fn fold_left(op: HostOp, seed: HostNum, xs: Seq<HostNum>) -> HostNum
    decreases xs.len(),
{
    if xs.len() == 0 {
        seed
    } else {
        binary(op, fold_left(op, seed, xs.drop_last()), xs.last())
    }
}

impl HostNum {
    /// The literal `0.0`.
    pub fn zero() -> (r: HostNum)
        ensures
            r == HostNum::Lit(ZERO_BITS),
    {
        HostNum::Lit(ZERO_BITS)
    }

    /// The literal `1.0`.
    pub fn one() -> (r: HostNum)
        ensures
            r == HostNum::Lit(ONE_BITS),
    {
        HostNum::Lit(ONE_BITS)
    }

    /// A copy of the expression.
    pub fn duplicate(&self) -> (r: HostNum)
        ensures
            r == *self,
        decreases self,
    {
        match self {
            HostNum::Lit(bits) => HostNum::Lit(*bits),
            HostNum::Binary(op, lhs, rhs) => {
                let l = lhs.duplicate();
                let r = rhs.duplicate();
                HostNum::Binary(*op, Box::new(l), Box::new(r))
            },
        }
    }

    /// `op(self, rhs)`.
    pub fn apply(self, op: HostOp, rhs: HostNum) -> (r: HostNum)
        ensures
            r == binary(op, self, rhs),
    {
        HostNum::Binary(op, Box::new(self), Box::new(rhs))
    }
}

/// Folds `op` over `xs` from the left, starting from `seed`.
pub fn fold(op: HostOp, seed: HostNum, xs: &[HostNum]) -> (r: HostNum)
    ensures
        r == fold_left(op, seed, xs@),
{
    let mut acc = seed;
    let mut i: usize = 0;
    while i < xs.len()
        invariant
            i <= xs.len(),
            acc == fold_left(op, seed, xs@.take(i as int)),
        decreases xs.len() - i,
    {
        proof {
            assert(xs@.take(i + 1).drop_last() =~= xs@.take(i as int));
        }
        acc = acc.apply(op, xs[i].duplicate());
        i = i + 1;
    }
    proof {
        assert(xs@.take(xs.len() as int) =~= xs@);
    }
    acc
}

} // verus!
