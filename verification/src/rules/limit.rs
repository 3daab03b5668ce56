//! The LIMIT rewrite rule.

use super::Rule;
use crate::ast::{ExprV, Expression, LitValue, Query, QueryV, RewriteError};
use vstd::prelude::*;

verus! {

/// Unconditionally replaces the query's LIMIT with a fixed value,
/// discarding any prior one — last writer wins.
#[derive(Clone, Copy, PartialEq, Eq, Structural, Debug)]
pub struct Limit {
    pub limit: usize,
}

impl Limit {
    pub fn new(limit: usize) -> (r: Self)
        ensures
            r.limit == limit,
    {
        Self { limit }
    }
}

/// The tree after the LIMIT rule: the limit replaced by the rule's value
/// as a numeric literal, everything else kept.
pub open spec fn limit_step(l: Limit, q: QueryV) -> QueryV {
    QueryV { limit: Some(ExprV::Literal(LitValue::Number(l.limit as u64))), ..q }
}

impl Rule for Limit {
    open spec fn pre(&self, q: QueryV) -> bool {
        true
    }

    open spec fn step(&self, q: QueryV) -> (Self, QueryV, bool) {
        (*self, limit_step(*self, q), true)
    }

    fn apply(&mut self, q: &mut Query) -> (r: Result<(), RewriteError>) {
        q.limit = Some(Expression::Literal(LitValue::Number(self.limit as u64)));
        Ok(())
    }
}

} // verus!
