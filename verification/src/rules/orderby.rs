//! The ORDER BY rewrite rule and the projection-expression extractor it
//! is built on.

use super::Rule;
use crate::ast::{
    BodyV, ExprV, Expression, OrderTerm, OrderTermV, ProjectionItem, ItemV, Query, QueryBody,
    QueryV, RewriteError,
};
use vstd::prelude::*;

verus! {

/// Discards any existing ORDER BY and installs the order-worthy
/// projection expressions of the innermost SELECT in its place.
#[derive(Clone, Copy, PartialEq, Eq, Structural, Debug)]
pub struct Orderby {}

/// What one projection item contributes to extraction: a bare expression
/// itself; for an aliased expression its alias, so later clauses can
/// reference the expression by its short name instead of repeating it; a
/// wildcard contributes nothing and fails the whole extraction.
pub open spec fn item_extract(it: ItemV) -> Result<ExprV, RewriteError> {
    match it {
        ItemV::Bare(e) => Ok(e),
        ItemV::Aliased(e, n) => Ok(ExprV::Identifier(n)),
        ItemV::Other(h) => Err(RewriteError::UnsupportedConstruct),
    }
}

/// Extraction over a whole body: the projection expressions of the
/// innermost SELECT, in projection order, found by unwrapping nested
/// sub-queries; an error on a wildcard item or an opaque body.
pub open spec fn extract_spec(b: BodyV) -> Result<Seq<ExprV>, RewriteError>
    decreases b,
{
    match b {
        BodyV::Select(items) => if forall|i: int|
            0 <= i < items.len() ==> #[trigger] item_extract(items[i]) is Ok {
            Ok(Seq::new(items.len(), |i: int| item_extract(items[i])->Ok_0))
        } else {
            Err(RewriteError::UnsupportedConstruct)
        },
        BodyV::NestedQuery(q) => extract_spec(q.body),
        BodyV::Other(h) => Err(RewriteError::UnsupportedConstruct),
    }
}

/// An expression is order-worthy when its value can vary row to row;
/// literals and typed literals are constants and are dropped.
pub open spec fn order_worthy(e: ExprV) -> bool {
    !(e is Literal || e is TypedLiteral)
}

/// The ORDER BY term an expression becomes: direction and nulls ordering
/// are left to the engine's defaults.
pub open spec fn order_term_of(e: ExprV) -> OrderTermV {
    OrderTermV { expression: e, direction: None, nulls_first: None }
}

/// The new ORDER BY list: the order-worthy expressions, in the same
/// relative order, each as a default-direction term.
pub open spec fn order_terms_spec(es: Seq<ExprV>) -> Seq<OrderTermV>
    decreases es.len(),
{
    if es.len() == 0 {
        Seq::empty()
    } else {
        let rest = order_terms_spec(es.drop_last());
        if order_worthy(es.last()) {
            rest.push(order_term_of(es.last()))
        } else {
            rest
        }
    }
}

/// The tree after the ORDER BY rule and whether it succeeded. The old
/// list is cleared before extraction runs, so a failed extraction leaves
/// it cleared — the clear is not rolled back.
pub open spec fn orderby_step(q: QueryV) -> (QueryV, bool) {
    match extract_spec(q.body) {
        Ok(es) => (QueryV { order_by: order_terms_spec(es), ..q }, true),
        Err(e) => (QueryV { order_by: Seq::empty(), ..q }, false),
    }
}

/// Maps one projection item to the expression it contributes to
/// extraction.
pub fn extract_expr_from_select_item(item: &ProjectionItem) -> (r: Result<Expression, RewriteError>)
    ensures
        match item_extract(item@) {
            Ok(e) => r is Ok && r->Ok_0@ == e,
            Err(err) => r == Err::<Expression, RewriteError>(err),
        },
{
    match item {
        ProjectionItem::Bare(e) => Ok(e.clone()),
        ProjectionItem::Aliased(e, alias) => Ok(Expression::Identifier(alias.clone())),
        ProjectionItem::Other(h) => Err(RewriteError::UnsupportedConstruct),
    }
}

/// Unwraps nested sub-queries down to the innermost SELECT and returns
/// its projection expressions as a flat ordered sequence. The first
/// unsupported item aborts the whole call.
pub fn get_select_items(body: &QueryBody) -> (r: Result<Vec<Expression>, RewriteError>)
    ensures
        match extract_spec(body@) {
            Ok(es) => r is Ok && r->Ok_0.deep_view() == es,
            Err(err) => r == Err::<Vec<Expression>, RewriteError>(err),
        },
    decreases body,
{
    match body {
        QueryBody::Select(items) => {
            let ghost itemsv = items.deep_view();
            let mut out: Vec<Expression> = Vec::new();
            let mut i: usize = 0;
            while i < items.len()
                invariant
                    i <= items.len(),
                    itemsv == items.deep_view(),
                    body@ == BodyV::Select(itemsv),
                    out@.len() == i,
                    forall|j: int| 0 <= j < i ==> #[trigger] item_extract(itemsv[j]) is Ok,
                    forall|j: int|
                        0 <= j < i ==> out.deep_view()[j] == item_extract(itemsv[j])->Ok_0,
                decreases items.len() - i,
            {
                match extract_expr_from_select_item(&items[i]) {
                    Ok(e) => {
                        let ghost out0 = out.deep_view();
                        proof {
                            assert(items[i as int]@ == itemsv[i as int]);
                        }
                        out.push(e);
                        proof {
                            assert(out.deep_view() =~= out0.push(e@));
                        }
                    },
                    Err(err) => {
                        proof {
                            assert(item_extract(itemsv[i as int]) is Err);
                            assert(extract_spec(body@) is Err);
                        }
                        return Err(err);
                    },
                }
                i += 1;
            }
            proof {
                assert(extract_spec(body@) is Ok);
                assert(out.deep_view() =~= Seq::new(
                    itemsv.len(),
                    |j: int| item_extract(itemsv[j])->Ok_0,
                ));
            }
            Ok(out)
        },
        QueryBody::NestedQuery(q) => get_select_items(&q.body),
        QueryBody::Other(h) => Err(RewriteError::UnsupportedConstruct),
    }
}

/// Step one of the rule: clear the ORDER BY. Then extract the projection
/// expressions, drop the constants, and install what is left, in
/// projection order, as the new list. On failure the list stays cleared
/// and nothing else is changed.
pub fn change_orderby(q: &mut Query) -> (r: Result<(), RewriteError>)
    ensures
        ({
            let (q2, ok) = orderby_step(old(q)@);
            &&& final(q)@ == q2
            &&& r == (if ok {
                Ok::<(), RewriteError>(())
            } else {
                Err::<(), RewriteError>(RewriteError::UnsupportedConstruct)
            })
        }),
{
    q.order_by = Vec::new();
    let exprs = match get_select_items(&q.body) {
        Ok(es) => es,
        Err(err) => {
            proof {
                assert(q@ =~= (QueryV { order_by: Seq::empty(), ..old(q)@ }));
            }
            return Err(err);
        },
    };
    let ghost esv = exprs.deep_view();
    let mut terms: Vec<OrderTerm> = Vec::new();
    let mut i: usize = 0;
    while i < exprs.len()
        invariant
            i <= exprs.len(),
            esv == exprs.deep_view(),
            terms.deep_view() == order_terms_spec(esv.take(i as int)),
        decreases exprs.len() - i,
    {
        let e = &exprs[i];
        let keep = match e {
            Expression::Literal(v) => false,
            Expression::TypedLiteral(h) => false,
            _ => true,
        };
        proof {
            assert(esv.take(i + 1 as int).drop_last() =~= esv.take(i as int));
            assert(esv.take(i + 1 as int).last() == esv[i as int]);
        }
        if keep {
            terms.push(OrderTerm { expression: e.clone(), direction: None, nulls_first: None });
            proof {
                assert(terms.deep_view() =~= order_terms_spec(esv.take(i + 1 as int)));
            }
        } else {
            proof {
                assert(terms.deep_view() =~= order_terms_spec(esv.take(i + 1 as int)));
            }
        }
        i += 1;
    }
    q.order_by = terms;
    proof {
        assert(esv.take(exprs@.len() as int) =~= esv);
        assert(q@ =~= (QueryV { order_by: order_terms_spec(esv), ..old(q)@ }));
    }
    Ok(())
}

impl Rule for Orderby {
    open spec fn pre(&self, q: QueryV) -> bool {
        true
    }

    open spec fn step(&self, q: QueryV) -> (Self, QueryV, bool) {
        (*self, orderby_step(q).0, orderby_step(q).1)
    }

    fn apply(&mut self, q: &mut Query) -> (r: Result<(), RewriteError>) {
        change_orderby(q)
    }
}

} // verus!
