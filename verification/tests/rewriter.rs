//! End-to-end tests of the rewrite rules, the extractor and the engine,
//! on concrete query trees.

use sqlrewriter::ast::{
    Expression, LitValue, OrderTerm, ProjectionItem, Query, QueryBody, RewriteError,
};
use sqlrewriter::rules::{
    count_fresh_aliases, get_select_items, rewrite, Alias, Limit, Orderby, Rule, RuleEngine,
    RuleKind,
};

fn ident(name: &str) -> Expression {
    Expression::Identifier(name.to_string())
}

fn number(n: u64) -> Expression {
    Expression::Literal(LitValue::Number(n))
}

fn bare(e: Expression) -> ProjectionItem {
    ProjectionItem::Bare(e)
}

fn select(items: Vec<ProjectionItem>) -> Query {
    Query { body: QueryBody::Select(items), order_by: Vec::new(), limit: None }
}

fn order_term(e: Expression) -> OrderTerm {
    OrderTerm { expression: e, direction: None, nulls_first: None }
}

/// `SELECT a, b, 123, myfunc(b) FROM t`, the function call carried as the
/// opaque handle 42.
fn sample_query() -> Query {
    select(vec![
        bare(ident("a")),
        bare(ident("b")),
        bare(number(123)),
        bare(Expression::Other(42)),
    ])
}

#[test]
fn alias_injects_fresh_names() {
    let mut q = sample_query();
    let mut rule = Alias::new(0);
    assert_eq!(rule.apply(&mut q), Ok(()));
    assert_eq!(
        q.body,
        QueryBody::Select(vec![
            bare(ident("a")),
            bare(ident("b")),
            bare(number(123)),
            ProjectionItem::Aliased(Expression::Other(42), "sqlrewriter-0".to_string()),
        ])
    );
}

#[test]
fn alias_is_idempotent() {
    // Applying the alias rule twice in a row produces the same projection
    // as applying it once, even though the counter kept its position.
    let mut q = sample_query();
    let mut rule = Alias::new(0);
    assert_eq!(rule.apply(&mut q), Ok(()));
    let once = select(match &q.body {
        QueryBody::Select(items) => items.clone(),
        _ => unreachable!(),
    });
    assert_eq!(rule.apply(&mut q), Ok(()));
    assert_eq!(q.body, once.body);
}

#[test]
fn alias_names_are_sequential_from_seed() {
    // Four items, three of them rewritten: the names are tag-5, tag-6,
    // tag-7, in projection order, and do not collide.
    let mut q = select(vec![
        bare(Expression::Other(1)),
        bare(ident("a")),
        bare(Expression::Other(2)),
        bare(Expression::TypedLiteral(3)),
    ]);
    let mut rule = Alias::new(5);
    assert_eq!(rule.apply(&mut q), Ok(()));
    assert_eq!(
        q.body,
        QueryBody::Select(vec![
            ProjectionItem::Aliased(Expression::Other(1), "sqlrewriter-5".to_string()),
            bare(ident("a")),
            ProjectionItem::Aliased(Expression::Other(2), "sqlrewriter-6".to_string()),
            ProjectionItem::Aliased(Expression::TypedLiteral(3), "sqlrewriter-7".to_string()),
        ])
    );
}

#[test]
fn alias_renders_multi_digit_counters() {
    let mut q = select(vec![bare(Expression::Other(1))]);
    let mut rule = Alias::new(907);
    assert_eq!(rule.apply(&mut q), Ok(()));
    assert_eq!(
        q.body,
        QueryBody::Select(vec![ProjectionItem::Aliased(
            Expression::Other(1),
            "sqlrewriter-907".to_string()
        )])
    );
}

#[test]
fn alias_leaves_aliased_and_trivial_items_alone() {
    let mut q = select(vec![
        bare(ident("a")),
        bare(Expression::CompoundIdentifier(vec!["t".to_string(), "b".to_string()])),
        bare(number(1)),
        ProjectionItem::Aliased(Expression::Other(9), "user_name".to_string()),
    ]);
    let before = select(match &q.body {
        QueryBody::Select(items) => items.clone(),
        _ => unreachable!(),
    });
    let mut rule = Alias::new(0);
    assert_eq!(rule.apply(&mut q), Ok(()));
    assert_eq!(q.body, before.body);
    assert_eq!(rule, Alias::new(0));
}

#[test]
fn alias_fails_whole_on_wildcard() {
    // A wildcard fails the whole call: no partial aliasing is committed
    // and the counter does not move.
    let mut q = select(vec![bare(Expression::Other(1)), ProjectionItem::Other(9)]);
    let before = select(match &q.body {
        QueryBody::Select(items) => items.clone(),
        _ => unreachable!(),
    });
    let mut rule = Alias::new(0);
    assert_eq!(rule.apply(&mut q), Err(RewriteError::UnsupportedConstruct));
    assert_eq!(q.body, before.body);
    assert_eq!(rule, Alias::new(0));
}

#[test]
fn alias_fails_on_opaque_body() {
    let mut q = Query { body: QueryBody::Other(3), order_by: Vec::new(), limit: None };
    let mut rule = Alias::new(0);
    assert_eq!(rule.apply(&mut q), Err(RewriteError::UnsupportedConstruct));
    assert_eq!(q.body, QueryBody::Other(3));
}

#[test]
fn alias_reaches_innermost_select() {
    let inner = select(vec![bare(Expression::Other(8))]);
    let mid = Query {
        body: QueryBody::NestedQuery(Box::new(inner)),
        order_by: Vec::new(),
        limit: None,
    };
    let mut q = Query {
        body: QueryBody::NestedQuery(Box::new(mid)),
        order_by: Vec::new(),
        limit: None,
    };
    let mut rule = Alias::new(0);
    assert_eq!(rule.apply(&mut q), Ok(()));
    match &q.body {
        QueryBody::NestedQuery(m) => match &m.body {
            QueryBody::NestedQuery(i) => assert_eq!(
                i.body,
                QueryBody::Select(vec![ProjectionItem::Aliased(
                    Expression::Other(8),
                    "sqlrewriter-0".to_string()
                )])
            ),
            _ => unreachable!(),
        },
        _ => unreachable!(),
    }
}

#[test]
fn extractor_returns_projection_in_order() {
    let q = select(vec![bare(ident("x")), bare(ident("y"))]);
    assert_eq!(get_select_items(&q.body), Ok(vec![ident("x"), ident("y")]));
}

#[test]
fn extractor_surfaces_alias_not_expression() {
    let q = select(vec![ProjectionItem::Aliased(Expression::Other(4), "y".to_string())]);
    assert_eq!(get_select_items(&q.body), Ok(vec![ident("y")]));
}

#[test]
fn extractor_unwraps_two_nesting_levels() {
    // A parenthesized sub-query two levels deep around SELECT x, y still
    // yields [x, y].
    let inner = select(vec![bare(ident("x")), bare(ident("y"))]);
    let mid = Query {
        body: QueryBody::NestedQuery(Box::new(inner)),
        order_by: Vec::new(),
        limit: None,
    };
    let outer = Query {
        body: QueryBody::NestedQuery(Box::new(mid)),
        order_by: Vec::new(),
        limit: None,
    };
    assert_eq!(get_select_items(&outer.body), Ok(vec![ident("x"), ident("y")]));
}

#[test]
fn extractor_rejects_wildcard() {
    let q = select(vec![bare(ident("x")), ProjectionItem::Other(0)]);
    assert_eq!(get_select_items(&q.body), Err(RewriteError::UnsupportedConstruct));
}

#[test]
fn extractor_rejects_opaque_body() {
    let q = Query { body: QueryBody::Other(0), order_by: Vec::new(), limit: None };
    assert_eq!(get_select_items(&q.body), Err(RewriteError::UnsupportedConstruct));
}

#[test]
fn orderby_excludes_constants_after_aliasing() {
    // With alias injection first (seed 0): ORDER BY a, b, sqlrewriter-0 —
    // the literal 123 is dropped and the function call is referenced by
    // its alias, not duplicated.
    let mut q = sample_query();
    assert_eq!(rewrite(&mut q, true, None, 0), Ok(()));
    assert_eq!(
        q.order_by,
        vec![
            order_term(ident("a")),
            order_term(ident("b")),
            order_term(ident("sqlrewriter-0")),
        ]
    );
    assert_eq!(
        q.body,
        QueryBody::Select(vec![
            bare(ident("a")),
            bare(ident("b")),
            bare(number(123)),
            ProjectionItem::Aliased(Expression::Other(42), "sqlrewriter-0".to_string()),
        ])
    );
}

#[test]
fn orderby_without_aliasing_repeats_expression() {
    // With the alias rule disabled the raw expression reappears verbatim
    // in the ORDER BY clause.
    let mut q = sample_query();
    let mut rule = Orderby {};
    assert_eq!(rule.apply(&mut q), Ok(()));
    assert_eq!(
        q.order_by,
        vec![
            order_term(ident("a")),
            order_term(ident("b")),
            order_term(Expression::Other(42)),
        ]
    );
}

#[test]
fn orderby_discards_existing_list() {
    let mut q = select(vec![bare(ident("a"))]);
    q.order_by = vec![order_term(ident("stale"))];
    let mut rule = Orderby {};
    assert_eq!(rule.apply(&mut q), Ok(()));
    assert_eq!(q.order_by, vec![order_term(ident("a"))]);
}

#[test]
fn orderby_drops_typed_literals() {
    let mut q = select(vec![bare(ident("a")), bare(Expression::TypedLiteral(6))]);
    let mut rule = Orderby {};
    assert_eq!(rule.apply(&mut q), Ok(()));
    assert_eq!(q.order_by, vec![order_term(ident("a"))]);
}

#[test]
fn orderby_on_empty_projection_yields_empty_list() {
    let mut q = select(Vec::new());
    q.order_by = vec![order_term(ident("stale"))];
    let mut rule = Orderby {};
    assert_eq!(rule.apply(&mut q), Ok(()));
    assert_eq!(q.order_by, Vec::new());
}

#[test]
fn orderby_failure_leaves_list_cleared() {
    // SELECT * fails with the unsupported construct; the ORDER BY is left
    // cleared — no new terms, and the clear is not rolled back.
    let mut q = select(vec![ProjectionItem::Other(0)]);
    q.order_by = vec![order_term(ident("stale"))];
    let mut rule = Orderby {};
    assert_eq!(rule.apply(&mut q), Err(RewriteError::UnsupportedConstruct));
    assert_eq!(q.order_by, Vec::new());
    assert_eq!(q.body, QueryBody::Select(vec![ProjectionItem::Other(0)]));
}

#[test]
fn limit_overwrites_existing_value() {
    // LIMIT 50 becomes LIMIT 10 — never 50, never both.
    let mut q = select(vec![bare(ident("a"))]);
    q.limit = Some(number(50));
    let mut rule = Limit::new(10);
    assert_eq!(rule.apply(&mut q), Ok(()));
    assert_eq!(q.limit, Some(number(10)));
}

#[test]
fn limit_sets_value_where_none_was() {
    let mut q = select(vec![bare(ident("a"))]);
    let mut rule = Limit::new(7);
    assert_eq!(rule.apply(&mut q), Ok(()));
    assert_eq!(q.limit, Some(number(7)));
}

#[test]
fn engine_orders_rules_alias_first() {
    let engine = RuleEngine::new(true, Some(10), 3);
    assert_eq!(
        engine.rules,
        vec![
            RuleKind::Alias(Alias::new(3)),
            RuleKind::Orderby(Orderby {}),
            RuleKind::Limit(Limit::new(10)),
        ]
    );
    let none = RuleEngine::new(false, None, 0);
    assert_eq!(none.rules, Vec::new());
}

#[test]
fn engine_runs_whole_pipeline() {
    let mut q = sample_query();
    q.limit = Some(number(50));
    assert_eq!(rewrite(&mut q, true, Some(10), 0), Ok(()));
    assert_eq!(
        q.order_by,
        vec![
            order_term(ident("a")),
            order_term(ident("b")),
            order_term(ident("sqlrewriter-0")),
        ]
    );
    assert_eq!(q.limit, Some(number(10)));
}

#[test]
fn engine_stops_at_first_failure() {
    // The alias rule fails on the wildcard; the limit rule never runs.
    let mut q = select(vec![ProjectionItem::Other(0)]);
    q.limit = Some(number(50));
    assert_eq!(rewrite(&mut q, true, Some(10), 0), Err(RewriteError::UnsupportedConstruct));
    assert_eq!(q.limit, Some(number(50)));
}

#[test]
fn engine_with_limit_alone_keeps_wildcard_query() {
    let mut q = select(vec![ProjectionItem::Other(0)]);
    assert_eq!(rewrite(&mut q, false, Some(10), 0), Ok(()));
    assert_eq!(q.body, QueryBody::Select(vec![ProjectionItem::Other(0)]));
    assert_eq!(q.limit, Some(number(10)));
}

#[test]
fn fresh_alias_count_matches_rewritten_items() {
    let q = sample_query();
    assert_eq!(count_fresh_aliases(&q.body), 1);
    let none = select(vec![bare(ident("a")), bare(number(1))]);
    assert_eq!(count_fresh_aliases(&none.body), 0);
    let opaque = Query { body: QueryBody::Other(1), order_by: Vec::new(), limit: None };
    assert_eq!(count_fresh_aliases(&opaque.body), 0);
}

#[test]
fn counter_hands_out_consecutive_values() {
    let mut rule = Alias::new(2);
    assert_eq!(rule.get_uniq_id(), 2);
    assert_eq!(rule.get_uniq_id(), 3);
    assert_eq!(rule.get_uniq_id(), 4);
}
