//! The capability every rewrite rule exposes: one mutation pass over a
//! query tree.

use crate::ast::{Query, QueryV, RewriteError};
use vstd::prelude::*;

verus! {

/// A rewrite rule. A rule may carry state of its own (the alias rule's
/// counter); `step` describes the whole effect of one application — the
/// state the rule is left in, the tree it leaves behind, and whether it
/// succeeded — and `apply` performs it.
pub trait Rule: Sized {
    /// What must hold before the rule runs (machine limits only; no rule
    /// narrows its inputs beyond them).
    spec fn pre(&self, q: QueryV) -> bool;

    /// The rule's effect on its own state and the tree, and whether it
    /// succeeds. A failing rule surfaces the unsupported construct; what
    /// it may leave changed is part of this description.
    spec fn step(&self, q: QueryV) -> (Self, QueryV, bool);

    /// Applies the rule once, mutating the tree in place.
    fn apply(&mut self, q: &mut Query) -> (r: Result<(), RewriteError>)
        requires
            old(self).pre(old(q)@),
        ensures
            ({
                let (s2, q2, ok) = old(self).step(old(q)@);
                &&& *final(self) == s2
                &&& final(q)@ == q2
                &&& r == (if ok {
                    Ok::<(), RewriteError>(())
                } else {
                    Err::<(), RewriteError>(RewriteError::UnsupportedConstruct)
                })
            }),
    ;
}

} // verus!
