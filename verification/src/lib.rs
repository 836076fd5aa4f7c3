use vstd::prelude::*;

pub mod iter;
pub mod job;
pub mod parallel;
pub mod processor;
pub mod queue;
pub mod reactor;
pub mod runtime;

pub use crate::runtime::{go, join, GlobalRuntime, InlineRuntime, RuntimeError, RuntimeType, TokioRuntime};

verus! {

/// Drops every element of `a` but its last one.
pub fn drain(a: &mut Vec<i32>)
    requires
        old(a)@.len() >= 1,
    ensures
        final(a)@ == seq![old(a)@.last()],
{
    let last = a.pop().unwrap();
    a.clear();
    a.push(last);
}

} // verus!
