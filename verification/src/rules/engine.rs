//! The rule engine: an ordered collection of enabled rules applied once
//! each, in a fixed relative order, to a shared query tree.

use super::alias::{alias_fresh, Alias};
use super::limit::Limit;
use super::orderby::Orderby;
use super::rule::Rule;
use crate::ast::{Query, QueryBody, QueryV, RewriteError};
use vstd::pervasive::VecAdditionalExecFns;
use vstd::prelude::*;

verus! {

/// One enabled rule, from the closed set the engine knows.
#[derive(Clone, Copy, PartialEq, Eq, Structural, Debug)]
pub enum RuleKind {
    Alias(Alias),
    Orderby(Orderby),
    Limit(Limit),
}

impl Rule for RuleKind {
    open spec fn pre(&self, q: QueryV) -> bool {
        match self {
            RuleKind::Alias(a) => a.pre(q),
            RuleKind::Orderby(o) => o.pre(q),
            RuleKind::Limit(l) => l.pre(q),
        }
    }

    open spec fn step(&self, q: QueryV) -> (Self, QueryV, bool) {
        match self {
            RuleKind::Alias(a) => {
                let (a2, q2, ok) = a.step(q);
                (RuleKind::Alias(a2), q2, ok)
            },
            RuleKind::Orderby(o) => {
                let (o2, q2, ok) = o.step(q);
                (RuleKind::Orderby(o2), q2, ok)
            },
            RuleKind::Limit(l) => {
                let (l2, q2, ok) = l.step(q);
                (RuleKind::Limit(l2), q2, ok)
            },
        }
    }

    fn apply(&mut self, q: &mut Query) -> (r: Result<(), RewriteError>) {
        match self {
            RuleKind::Alias(a) => a.apply(q),
            RuleKind::Orderby(o) => o.apply(q),
            RuleKind::Limit(l) => l.apply(q),
        }
    }
}

/// Whether each rule's precondition holds at its turn: the first rule's
/// now and, where it succeeds, the rest's on the tree it leaves.
pub open spec fn rules_pre(rules: Seq<RuleKind>, q: QueryV) -> bool
    decreases rules.len(),
{
    rules.len() == 0 || {
        let (r2, q2, ok) = rules[0].step(q);
        rules[0].pre(q) && (ok ==> rules_pre(rules.drop_first(), q2))
    }
}

/// One engine pass: each rule applied once, in order, stopping at the
/// first failure. Yields the rules' final states, the final tree, and
/// whether every rule succeeded. Later rules never run against a tree a
/// failed rule left behind.
pub open spec fn run_rules(rules: Seq<RuleKind>, q: QueryV) -> (Seq<RuleKind>, QueryV, bool)
    decreases rules.len(),
{
    if rules.len() == 0 {
        (rules, q, true)
    } else {
        let (r2, q2, ok) = rules[0].step(q);
        if !ok {
            (seq![r2] + rules.drop_first(), q2, false)
        } else {
            let (rest, q3, ok3) = run_rules(rules.drop_first(), q2);
            (seq![r2] + rest, q3, ok3)
        }
    }
}

/// Holds the enabled rules in the order they run and applies them to a
/// query tree.
pub struct RuleEngine {
    pub rules: Vec<RuleKind>,
}

/// The rules a configuration enables, in their fixed relative order:
/// alias injection and ORDER BY rewriting come as a pair, alias first,
/// so the ORDER BY list references complex expressions by their short
/// aliases; LIMIT rewriting is independent and runs last.
pub open spec fn config_rules(orderby: bool, limit: Option<usize>, alias_seed: usize) -> Seq<
    RuleKind,
> {
    (if orderby {
        seq![RuleKind::Alias(Alias { id: alias_seed }), RuleKind::Orderby(Orderby {})]
    } else {
        Seq::empty()
    }) + (match limit {
        Some(n) => seq![RuleKind::Limit(Limit { limit: n })],
        None => Seq::empty(),
    })
}

impl RuleEngine {
    /// Builds the engine for a configuration.
    pub fn new(orderby: bool, limit: Option<usize>, alias_seed: usize) -> (r: Self)
        ensures
            r.rules@ == config_rules(orderby, limit, alias_seed),
    {
        let mut rules: Vec<RuleKind> = Vec::new();
        if orderby {
            rules.push(RuleKind::Alias(Alias::new(alias_seed)));
            rules.push(RuleKind::Orderby(Orderby {}));
        }
        match limit {
            Some(n) => {
                rules.push(RuleKind::Limit(Limit::new(n)));
            },
            None => {},
        }
        proof {
            assert(rules@ =~= config_rules(orderby, limit, alias_seed));
        }
        RuleEngine { rules }
    }

    /// Applies each enabled rule exactly once, in order, to the query,
    /// stopping at and surfacing the first failure.
    pub fn apply_all(&mut self, q: &mut Query) -> (r: Result<(), RewriteError>)
        requires
            rules_pre(old(self).rules@, old(q)@),
        ensures
            ({
                let (rs, q2, ok) = run_rules(old(self).rules@, old(q)@);
                &&& final(self).rules@ == rs
                &&& final(q)@ == q2
                &&& r == (if ok {
                    Ok::<(), RewriteError>(())
                } else {
                    Err::<(), RewriteError>(RewriteError::UnsupportedConstruct)
                })
            }),
    {
        let ghost orig_rules = self.rules@;
        let ghost orig_q = q@;
        let n = self.rules.len();
        proof {
            assert(self.rules@.skip(0) =~= orig_rules);
            let (rest, q3, ok3) = run_rules(orig_rules, orig_q);
            assert(self.rules@.take(0) + rest =~= rest);
        }
        let mut i: usize = 0;
        while i < n
            invariant
                i <= n,
                n == self.rules@.len(),
                orig_rules == old(self).rules@,
                orig_q == old(q)@,
                self.rules@.len() == orig_rules.len(),
                forall|j: int| i <= j < orig_rules.len() ==> self.rules@[j] == orig_rules[j],
                rules_pre(self.rules@.skip(i as int), q@),
                run_rules(orig_rules, orig_q) == ({
                    let (rest, q3, ok3) = run_rules(self.rules@.skip(i as int), q@);
                    (self.rules@.take(i as int) + rest, q3, ok3)
                }),
            decreases n - i,
        {
            let ghost rules_before = self.rules@;
            let ghost q_before = q@;
            let ghost remaining = self.rules@.skip(i as int);
            proof {
                assert(remaining[0] == self.rules@[i as int]);
                assert(remaining.drop_first() =~= rules_before.skip(i + 1 as int));
            }
            let mut rk = self.rules[i];
            let res = rk.apply(q);
            self.rules.set(i, rk);
            proof {
                assert(self.rules@.skip(i + 1 as int) =~= rules_before.skip(i + 1 as int));
                assert(self.rules@.take(i + 1 as int) =~= rules_before.take(i as int).push(
                    self.rules@[i as int],
                ));
            }
            match res {
                Ok(u) => {
                    proof {
                        let (rest, q3, ok3) = run_rules(self.rules@.skip(i + 1 as int), q@);
                        assert(rules_before.take(i as int) + (seq![self.rules@[i as int]] + rest)
                            =~= self.rules@.take(i + 1 as int) + rest);
                    }
                    i += 1;
                },
                Err(err) => {
                    proof {
                        let (r2, q2, ok) = remaining[0].step(q_before);
                        assert(!ok);
                        assert(run_rules(remaining, q_before) == (
                            seq![r2] + remaining.drop_first(),
                            q2,
                            false,
                        ));
                        assert(rules_before.take(i as int) + (seq![r2] + remaining.drop_first())
                            =~= self.rules@);
                    }
                    return Err(err);
                },
            }
        }
        proof {
            assert(self.rules@.skip(n as int) =~= Seq::<RuleKind>::empty());
            assert(self.rules@.take(n as int) + self.rules@.skip(n as int) =~= self.rules@);
        }
        Ok(())
    }
}

/// The number of fresh aliases the alias rule would draw on this tree —
/// what a caller checks against the counter seed before a pass, since
/// the counter must not overflow. An opaque body draws none.
pub fn count_fresh_aliases(body: &QueryBody) -> (r: usize)
    ensures
        r == alias_fresh(body@),
    decreases body,
{
    match body {
        QueryBody::Select(items) => {
            let ghost itemsv = items.deep_view();
            let mut count: usize = 0;
            let mut i: usize = 0;
            while i < items.len()
                invariant
                    i <= items.len(),
                    itemsv == items.deep_view(),
                    count == super::alias::fresh_before(itemsv, i as int),
                    count <= i,
                decreases items.len() - i,
            {
                proof {
                    assert(items[i as int]@ == itemsv[i as int]);
                }
                let bump = match &items[i] {
                    crate::ast::ProjectionItem::Bare(e) => match e {
                        crate::ast::Expression::Identifier(n) => false,
                        crate::ast::Expression::CompoundIdentifier(p) => false,
                        crate::ast::Expression::Literal(v) => false,
                        _ => true,
                    },
                    _ => false,
                };
                if bump {
                    count = count + 1;
                }
                i += 1;
            }
            proof {
                assert(body@ == crate::ast::BodyV::Select(itemsv));
            }
            count
        },
        QueryBody::NestedQuery(q) => count_fresh_aliases(&q.body),
        QueryBody::Other(h) => 0,
    }
}

/// The whole pipeline for one configuration: builds the engine for it
/// and runs the pass on the query. The one precondition is the machine
/// limit on the alias counter, which a caller checks with
/// [`count_fresh_aliases`].
pub fn rewrite(q: &mut Query, orderby: bool, limit: Option<usize>, alias_seed: usize) -> (r:
    Result<(), RewriteError>)
    requires
        orderby ==> alias_seed + alias_fresh(old(q)@.body) <= usize::MAX,
    ensures
        ({
            let (rs, q2, ok) = run_rules(config_rules(orderby, limit, alias_seed), old(q)@);
            &&& final(q)@ == q2
            &&& r == (if ok {
                Ok::<(), RewriteError>(())
            } else {
                Err::<(), RewriteError>(RewriteError::UnsupportedConstruct)
            })
        }),
{
    let mut engine = RuleEngine::new(orderby, limit, alias_seed);
    proof {
        lemma_config_rules_pre(orderby, limit, alias_seed, q@);
    }
    engine.apply_all(q)
}

/// The engine's precondition holds for every configuration whose alias
/// seed cannot overflow: only the alias rule asks anything, and it runs
/// first.
proof fn lemma_config_rules_pre(orderby: bool, limit: Option<usize>, alias_seed: usize, q: QueryV)
    requires
        orderby ==> alias_seed + alias_fresh(q.body) <= usize::MAX,
    ensures
        rules_pre(config_rules(orderby, limit, alias_seed), q),
{
    let rules = config_rules(orderby, limit, alias_seed);
    let lim_part = (match limit {
        Some(n) => seq![RuleKind::Limit(Limit { limit: n })],
        None => Seq::<RuleKind>::empty(),
    });
    assert forall|qv: QueryV| rules_pre(lim_part, qv) by {
        match limit {
            Some(n) => {
                assert(lim_part[0].pre(qv));
                assert(lim_part.drop_first() =~= Seq::<RuleKind>::empty());
                assert(rules_pre(lim_part.drop_first(), lim_part[0].step(qv).1));
            },
            None => {},
        }
    };
    if orderby {
        let a = Alias { id: alias_seed };
        assert(rules =~= seq![RuleKind::Alias(a), RuleKind::Orderby(Orderby {  })] + lim_part);
        assert(rules[0] == RuleKind::Alias(a));
        assert(rules[0].pre(q));
        let (r2, q2, ok) = rules[0].step(q);
        let tail = rules.drop_first();
        assert(tail =~= seq![RuleKind::Orderby(Orderby {  })] + lim_part);
        if ok {
            assert(tail[0] == RuleKind::Orderby(Orderby {  }));
            assert(tail[0].pre(q2));
            let (r3, q3, ok3) = tail[0].step(q2);
            let tail2 = tail.drop_first();
            assert(tail2 =~= lim_part);
            if ok3 {
                assert(rules_pre(tail2, q3));
            }
            assert(rules_pre(tail, q2));
        }
        assert(rules_pre(rules, q));
    } else {
        assert(rules =~= lim_part);
    }
}

} // verus!
