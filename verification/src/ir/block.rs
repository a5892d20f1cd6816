//! Basic blocks.

use vstd::prelude::*;
use vstd::string::*;
use crate::ir::backend::{Backend, BackendCall, CallView, ValueRef, next_ref};

verus! {

/// Appends a basic block named `function_name` to `function` and returns its
/// reference. The insertion point does not move.
pub fn append_basic_block_in_context(
    context: &mut Backend,
    function: ValueRef,
    function_name: &str,
) -> (r: ValueRef)
    ensures
        final(context)@ == old(context)@.push(
            CallView::AppendBlock { function, name: function_name@ },
        ),
        r == next_ref(old(context)@),
{
    context.record(BackendCall::AppendBlock { function, name: String::from_str(function_name) })
}

} // verus!
