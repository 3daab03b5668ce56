//! The query tree that the rewrite rules work on.
//!
//! The tree mirrors the shape a SQL parser hands out, reduced to what the
//! rules actually inspect: a projection-bearing body (possibly wrapped in
//! parenthesized sub-queries), an ORDER BY list and an optional LIMIT.
//! Everything the rules never look inside — function calls, arithmetic,
//! wildcards, set operations — is carried as an opaque handle (`u64`) that
//! the embedder maps back to the full parsed form.

use vstd::prelude::*;

verus! {

/// A literal value in an expression position. The rules only ever need to
/// know that a value is a literal; the one literal the rewriter itself
/// creates is a number (for LIMIT), so numbers are carried as such and
/// every other literal kind as an opaque handle.
#[derive(Clone, Copy, PartialEq, Eq, Structural, Debug)]
pub enum LitValue {
    Number(u64),
    Other(u64),
}

/// Sort direction of an ORDER BY term.
#[derive(Clone, Copy, PartialEq, Eq, Structural, Debug)]
pub enum Direction {
    Ascending,
    Descending,
}

/// The error a rule surfaces when the tree holds a construct it cannot
/// decompose: a wildcard projection item, or a set-operation / VALUES body
/// where a flat projection list is required.
#[derive(Clone, Copy, PartialEq, Eq, Structural, Debug)]
pub enum RewriteError {
    UnsupportedConstruct,
}

/// Spec-level model of an [`Expression`].
#[verifier::ext_equal]
pub enum ExprV {
    Identifier(Seq<char>),
    CompoundIdentifier(Seq<Seq<char>>),
    Literal(LitValue),
    TypedLiteral(u64),
    Other(u64),
}

/// Spec-level model of a [`ProjectionItem`].
#[verifier::ext_equal]
pub enum ItemV {
    Bare(ExprV),
    Aliased(ExprV, Seq<char>),
    Other(u64),
}

/// Spec-level model of an [`OrderTerm`].
#[verifier::ext_equal]
pub struct OrderTermV {
    pub expression: ExprV,
    pub direction: Option<Direction>,
    pub nulls_first: Option<bool>,
}

/// Spec-level model of a [`QueryBody`].
#[verifier::ext_equal]
pub enum BodyV {
    Select(Seq<ItemV>),
    NestedQuery(Box<QueryV>),
    Other(u64),
}

/// Spec-level model of a [`Query`].
#[verifier::ext_equal]
pub struct QueryV {
    pub body: BodyV,
    pub order_by: Seq<OrderTermV>,
    pub limit: Option<ExprV>,
}

/// An expression in a projection, ORDER BY or LIMIT position. Only the
/// first four variants are ever inspected by a rule; `Other` covers
/// function calls, arithmetic, casts and the rest, which are order-worthy
/// but otherwise opaque here.
#[derive(PartialEq, Eq, Debug)]
pub enum Expression {
    Identifier(String),
    CompoundIdentifier(Vec<String>),
    Literal(LitValue),
    TypedLiteral(u64),
    Other(u64),
}

/// One entry of a SELECT clause's output list.
#[derive(PartialEq, Eq, Debug)]
pub enum ProjectionItem {
    /// An expression with no alias.
    Bare(Expression),
    /// An expression given an alias.
    Aliased(Expression, String),
    /// A wildcard or qualified wildcard — not decomposable here.
    Other(u64),
}

/// One term of an ORDER BY list. `None` direction or nulls ordering means
/// "defer to the engine's default", not "ascending".
#[derive(PartialEq, Eq, Debug)]
pub struct OrderTerm {
    pub expression: Expression,
    pub direction: Option<Direction>,
    pub nulls_first: Option<bool>,
}

/// The body of a query: a SELECT with its projection list, a parenthesized
/// sub-query with the same shape as the root, or an opaque body (set
/// operation, VALUES list) that no rule can decompose.
#[derive(PartialEq, Eq, Debug)]
pub enum QueryBody {
    Select(Vec<ProjectionItem>),
    NestedQuery(Box<Query>),
    Other(u64),
}

/// The root tree being rewritten: a body plus an ORDER BY list and an
/// optional LIMIT value.
#[derive(PartialEq, Eq, Debug)]
pub struct Query {
    pub body: QueryBody,
    pub order_by: Vec<OrderTerm>,
    pub limit: Option<Expression>,
}

impl View for Expression {
    type V = ExprV;

    open spec fn view(&self) -> ExprV {
        match self {
            Expression::Identifier(n) => ExprV::Identifier(n@),
            Expression::CompoundIdentifier(p) => ExprV::CompoundIdentifier(p.deep_view()),
            Expression::Literal(v) => ExprV::Literal(*v),
            Expression::TypedLiteral(h) => ExprV::TypedLiteral(*h),
            Expression::Other(h) => ExprV::Other(*h),
        }
    }
}

impl DeepView for Expression {
    type V = ExprV;

    open spec fn deep_view(&self) -> ExprV {
        self.view()
    }
}

impl View for ProjectionItem {
    type V = ItemV;

    open spec fn view(&self) -> ItemV {
        match self {
            ProjectionItem::Bare(e) => ItemV::Bare(e@),
            ProjectionItem::Aliased(e, n) => ItemV::Aliased(e@, n@),
            ProjectionItem::Other(h) => ItemV::Other(*h),
        }
    }
}

impl DeepView for ProjectionItem {
    type V = ItemV;

    open spec fn deep_view(&self) -> ItemV {
        self.view()
    }
}

impl View for OrderTerm {
    type V = OrderTermV;

    open spec fn view(&self) -> OrderTermV {
        OrderTermV {
            expression: self.expression@,
            direction: self.direction,
            nulls_first: self.nulls_first,
        }
    }
}

impl DeepView for OrderTerm {
    type V = OrderTermV;

    open spec fn deep_view(&self) -> OrderTermV {
        self.view()
    }
}

/// The model of a body, mutually recursive with [`query_view`].
pub open spec fn body_view(b: QueryBody) -> BodyV
    decreases b,
{
    match b {
        QueryBody::Select(items) => BodyV::Select(items.deep_view()),
        QueryBody::NestedQuery(q) => BodyV::NestedQuery(Box::new(query_view(*q))),
        QueryBody::Other(h) => BodyV::Other(h),
    }
}

/// The model of a query tree.
pub open spec fn query_view(q: Query) -> QueryV
    decreases q,
{
    QueryV { body: body_view(q.body), order_by: q.order_by.deep_view(), limit: q.limit.deep_view() }
}

impl View for QueryBody {
    type V = BodyV;

    open spec fn view(&self) -> BodyV {
        body_view(*self)
    }
}

impl View for Query {
    type V = QueryV;

    open spec fn view(&self) -> QueryV {
        query_view(*self)
    }
}

/// Clones a list of identifier parts, keeping each part equal to the
/// original.
fn clone_names(v: &Vec<String>) -> (r: Vec<String>)
    ensures
        r@ == v@,
{
    let mut r: Vec<String> = Vec::new();
    let mut i: usize = 0;
    while i < v.len()
        invariant
            i <= v.len(),
            r@.len() == i,
            forall|j: int| 0 <= j < i ==> r@[j] == v@[j],
        decreases v.len() - i,
    {
        r.push(v[i].clone());
        i += 1;
    }
    proof {
        assert(r@ =~= v@);
    }
    r
}

impl Clone for Expression {
    /// The clone is the same expression, model for model.
    fn clone(&self) -> (r: Self)
        ensures
            r@ == self@,
    {
        match self {
            Expression::Identifier(n) => Expression::Identifier(n.clone()),
            Expression::CompoundIdentifier(p) => {
                let q = clone_names(p);
                proof {
                    assert(q.deep_view() =~= p.deep_view());
                }
                Expression::CompoundIdentifier(q)
            },
            Expression::Literal(v) => Expression::Literal(*v),
            Expression::TypedLiteral(h) => Expression::TypedLiteral(*h),
            Expression::Other(h) => Expression::Other(*h),
        }
    }
}

impl Clone for ProjectionItem {
    /// The clone is the same item, model for model.
    fn clone(&self) -> (r: Self)
        ensures
            r@ == self@,
    {
        match self {
            ProjectionItem::Bare(e) => ProjectionItem::Bare(e.clone()),
            ProjectionItem::Aliased(e, n) => ProjectionItem::Aliased(e.clone(), n.clone()),
            ProjectionItem::Other(h) => ProjectionItem::Other(*h),
        }
    }
}

} // verus!
