//! The alias-injection rule and its naming scheme.

use super::Rule;
use crate::ast::{BodyV, ExprV, Expression, ItemV, ProjectionItem, Query, QueryBody, QueryV,
    RewriteError};
use vstd::prelude::*;
use vstd::string::StringExecFns;

verus! {

/// Gives every non-trivial bare projection expression a fresh,
/// collision-free alias, so later rules can reference the expression by a
/// short stable name instead of repeating it. The counter is owned by one
/// rule instance, is seeded by the caller and never resets, which keeps
/// every name it generates distinct.
#[derive(Clone, Copy, PartialEq, Eq, Structural, Debug, Default)]
pub struct Alias {
    pub id: usize,
}

/// The character for one decimal digit.
pub open spec fn digit_char(d: nat) -> char {
    if d == 0 {
        '0'
    } else if d == 1 {
        '1'
    } else if d == 2 {
        '2'
    } else if d == 3 {
        '3'
    } else if d == 4 {
        '4'
    } else if d == 5 {
        '5'
    } else if d == 6 {
        '6'
    } else if d == 7 {
        '7'
    } else if d == 8 {
        '8'
    } else {
        '9'
    }
}

/// The decimal digits of `n`, most significant first, with no leading
/// zero except for `n == 0` itself.
pub open spec fn dec_digits(n: nat) -> Seq<char>
    decreases n,
{
    if n < 10 {
        seq![digit_char(n)]
    } else {
        dec_digits(n / 10).push(digit_char(n % 10))
    }
}

/// The name given to the alias drawn at counter value `n`: the engine tag,
/// a dash, the counter. The tag is chosen so the name cannot collide with
/// a user column name under normal usage.
pub open spec fn alias_name(n: nat) -> Seq<char> {
    "sqlrewriter-"@ + dec_digits(n)
}

/// Appends one decimal digit character.
fn push_digit(s: &mut String, d: usize)
    requires
        d < 10,
    ensures
        final(s)@ == old(s)@ + seq![digit_char(d as nat)],
{
    let ghost s0 = s@;
    let ds: &str = if d == 0 {
        "0"
    } else if d == 1 {
        "1"
    } else if d == 2 {
        "2"
    } else if d == 3 {
        "3"
    } else if d == 4 {
        "4"
    } else if d == 5 {
        "5"
    } else if d == 6 {
        "6"
    } else if d == 7 {
        "7"
    } else if d == 8 {
        "8"
    } else {
        "9"
    };
    proof {
        reveal_strlit("0");
        reveal_strlit("1");
        reveal_strlit("2");
        reveal_strlit("3");
        reveal_strlit("4");
        reveal_strlit("5");
        reveal_strlit("6");
        reveal_strlit("7");
        reveal_strlit("8");
        reveal_strlit("9");
        assert(ds@ =~= seq![digit_char(d as nat)]);
    }
    s.append(ds);
}

/// Appends the decimal digits of `n`.
fn push_dec(s: &mut String, n: usize)
    ensures
        final(s)@ == old(s)@ + dec_digits(n as nat),
    decreases n,
{
    let ghost s0 = s@;
    if n < 10 {
        push_digit(s, n);
    } else {
        push_dec(s, n / 10);
        push_digit(s, n % 10);
        proof {
            assert(s@ =~= s0 + dec_digits(n as nat));
        }
    }
}

/// A bare expression that is already a short, stable reference — an
/// identifier, a compound identifier or a literal — is left alone;
/// aliasing it would be noise.
pub open spec fn trivial_expr(e: ExprV) -> bool {
    e is Identifier || e is CompoundIdentifier || e is Literal
}

/// Whether the rule rewrites this item: only a bare, non-trivial
/// expression gets a fresh alias. Already-aliased items are left
/// unchanged, which is what makes a second pass a no-op.
pub open spec fn needs_alias(it: ItemV) -> bool {
    match it {
        ItemV::Bare(e) => !trivial_expr(e),
        _ => false,
    }
}

/// How many of the first `i` items get a fresh alias.
pub open spec fn fresh_before(items: Seq<ItemV>, i: int) -> nat
    decreases i,
{
    if i <= 0 {
        0
    } else {
        fresh_before(items, i - 1) + (if needs_alias(items[i - 1]) {
            1nat
        } else {
            0nat
        })
    }
}

/// How many fresh aliases the whole projection takes.
pub open spec fn fresh_count(items: Seq<ItemV>) -> nat {
    fresh_before(items, items.len() as int)
}

/// One item after the rule, for a pass whose counter started at `seed`:
/// the `j`-th rewritten item gets the `j`-th name after the seed.
pub open spec fn aliased_item(items: Seq<ItemV>, i: int, seed: nat) -> ItemV {
    let it = items[i];
    if needs_alias(it) {
        ItemV::Aliased(it->Bare_0, alias_name(seed + fresh_before(items, i)))
    } else {
        it
    }
}

/// The projection after the rule.
pub open spec fn aliased_items(items: Seq<ItemV>, seed: nat) -> Seq<ItemV> {
    Seq::new(items.len(), |i: int| aliased_item(items, i, seed))
}

/// Whether the projection holds a wildcard item, on which the rule fails
/// whole — no partial aliasing is committed.
pub open spec fn has_wildcard(items: Seq<ItemV>) -> bool {
    exists|i: int| 0 <= i < items.len() && items[i] is Other
}

/// The body after the rule, `None` where the rule fails: the innermost
/// SELECT's projection rewritten, every wrapping level kept; a wildcard
/// item or an opaque body fails.
pub open spec fn alias_body_spec(b: BodyV, seed: nat) -> Option<BodyV>
    decreases b,
{
    match b {
        BodyV::Select(items) => if has_wildcard(items) {
            None
        } else {
            Some(BodyV::Select(aliased_items(items, seed)))
        },
        BodyV::NestedQuery(q) => match alias_body_spec(q.body, seed) {
            Some(nb) => Some(BodyV::NestedQuery(Box::new(QueryV { body: nb, ..(*q) }))),
            None => None,
        },
        BodyV::Other(h) => None,
    }
}

/// How many fresh aliases the rule draws from the counter on this body.
pub open spec fn alias_fresh(b: BodyV) -> nat
    decreases b,
{
    match b {
        BodyV::Select(items) => fresh_count(items),
        BodyV::NestedQuery(q) => alias_fresh(q.body),
        BodyV::Other(h) => 0,
    }
}

/// Whether alias injection can decompose this body: the innermost body
/// is a SELECT whose projection holds no wildcard.
pub open spec fn alias_supported(b: BodyV) -> bool
    decreases b,
{
    match b {
        BodyV::Select(items) => !has_wildcard(items),
        BodyV::NestedQuery(q) => alias_supported(q.body),
        BodyV::Other(h) => false,
    }
}

/// The rule succeeds exactly on the bodies it can decompose, whatever the
/// counter seed.
pub proof fn lemma_alias_supported(b: BodyV, seed: nat)
    ensures
        alias_supported(b) <==> alias_body_spec(b, seed) is Some,
    decreases b,
{
    match b {
        BodyV::NestedQuery(q) => lemma_alias_supported(q.body, seed),
        _ => {},
    }
}

/// The count of rewritten items grows with the prefix.
pub proof fn lemma_fresh_before_mono(items: Seq<ItemV>, i: int, j: int)
    requires
        0 <= i <= j,
    ensures
        fresh_before(items, i) <= fresh_before(items, j),
    decreases j,
{
    if i < j {
        lemma_fresh_before_mono(items, i, j - 1);
    }
}

/// Every decimal rendering has at least one digit, and two for ten and
/// above.
proof fn lemma_dec_digits_len(n: nat)
    ensures
        dec_digits(n).len() >= 1,
        n >= 10 ==> dec_digits(n).len() >= 2,
    decreases n,
{
    if n >= 10 {
        lemma_dec_digits_len(n / 10);
    }
}

/// Distinct digits render as distinct characters.
proof fn lemma_digit_char_injective(d1: nat, d2: nat)
    requires
        d1 < 10,
        d2 < 10,
        d1 != d2,
    ensures
        digit_char(d1) != digit_char(d2),
{
}

/// Decimal rendering is injective: equal digit strings come from equal
/// numbers.
proof fn lemma_dec_digits_injective(n1: nat, n2: nat)
    requires
        dec_digits(n1) == dec_digits(n2),
    ensures
        n1 == n2,
    decreases n1 + n2,
{
    lemma_dec_digits_len(n1);
    lemma_dec_digits_len(n2);
    if n1 < 10 && n2 < 10 {
        assert(dec_digits(n1)[0] == digit_char(n1));
        assert(dec_digits(n2)[0] == digit_char(n2));
        if n1 != n2 {
            lemma_digit_char_injective(n1, n2);
        }
    } else if n1 < 10 || n2 < 10 {
        assert(dec_digits(n1).len() != dec_digits(n2).len());
    } else {
        let s1 = dec_digits(n1 / 10);
        let s2 = dec_digits(n2 / 10);
        assert(dec_digits(n1).last() == digit_char(n1 % 10));
        assert(dec_digits(n2).last() == digit_char(n2 % 10));
        if n1 % 10 != n2 % 10 {
            lemma_digit_char_injective(n1 % 10, n2 % 10);
        }
        assert(n1 % 10 == n2 % 10);
        assert(s1 =~= dec_digits(n1).drop_last());
        assert(s2 =~= dec_digits(n2).drop_last());
        assert(s1 == s2);
        lemma_dec_digits_injective(n1 / 10, n2 / 10);
        assert(n1 / 10 == n2 / 10);
        vstd::arithmetic::div_mod::lemma_fundamental_div_mod(n1 as int, 10);
        vstd::arithmetic::div_mod::lemma_fundamental_div_mod(n2 as int, 10);
        assert(n1 as int == 10 * ((n1 as int) / 10) + (n1 as int) % 10);
        assert(n2 as int == 10 * ((n2 as int) / 10) + (n2 as int) % 10);
        assert(n1 == n2);
    }
}

/// Distinct counter values give distinct alias names: no two aliases
/// drawn from one counter collide.
pub proof fn lemma_alias_name_injective(n1: nat, n2: nat)
    requires
        n1 != n2,
    ensures
        alias_name(n1) != alias_name(n2),
{
    if alias_name(n1) == alias_name(n2) {
        let tag = "sqlrewriter-"@;
        assert(dec_digits(n1) =~= alias_name(n1).skip(tag.len() as int));
        assert(dec_digits(n2) =~= alias_name(n2).skip(tag.len() as int));
        lemma_dec_digits_injective(n1, n2);
    }
}

/// For a projection whose rewritten items number `k` and a pass seeded
/// `s`, the rule assigns exactly the names for counter values `s` up to
/// `s + k - 1`, in projection order: the item at `i`, when it is
/// rewritten, keeps its expression and gets the name drawn at `s` plus
/// the number of rewritten items before it.
pub proof fn lemma_alias_names_sequential(items: Seq<ItemV>, seed: nat, i: int)
    requires
        0 <= i < items.len(),
        needs_alias(items[i]),
    ensures
        fresh_before(items, i) < fresh_count(items),
        aliased_items(items, seed)[i] == ItemV::Aliased(
            items[i]->Bare_0,
            alias_name(seed + fresh_before(items, i)),
        ),
{
    lemma_fresh_before_mono(items, i + 1, items.len() as int);
}

/// Every counter offset below the pass's total is drawn by some item:
/// together with [`lemma_alias_names_sequential`], a pass over `k`
/// rewritten items assigns exactly the names for counter values `seed`
/// up to `seed + k - 1`, with none skipped.
pub proof fn lemma_alias_names_exhaustive(items: Seq<ItemV>, j: int, c: nat)
    requires
        0 <= j <= items.len(),
        c < fresh_before(items, j),
    ensures
        exists|i: int| 0 <= i < j && needs_alias(items[i]) && fresh_before(items, i) == c,
    decreases j,
{
    if j > 0 {
        if needs_alias(items[j - 1]) && c == fresh_before(items, j - 1) {
            assert(0 <= j - 1 < j && needs_alias(items[j - 1]) && fresh_before(items, j - 1)
                == c);
        } else {
            lemma_alias_names_exhaustive(items, j - 1, c);
            let w = choose|i: int|
                0 <= i < j - 1 && needs_alias(items[i]) && fresh_before(items, i) == c;
            assert(0 <= w < j && needs_alias(items[w]) && fresh_before(items, w) == c);
        }
    }
}

/// Two different rewritten items of one pass get different aliases.
pub proof fn lemma_alias_names_distinct(items: Seq<ItemV>, seed: nat, i: int, j: int)
    requires
        0 <= i < j < items.len(),
        needs_alias(items[i]),
        needs_alias(items[j]),
    ensures
        aliased_items(items, seed)[i]->Aliased_1 != aliased_items(items, seed)[j]->Aliased_1,
{
    lemma_fresh_before_mono(items, i + 1, j);
    lemma_alias_name_injective(seed + fresh_before(items, i), seed + fresh_before(items, j));
}

/// A second pass finds nothing left to rewrite: every item the first
/// pass aliased is now aliased, and everything it left alone was trivial
/// or aliased already. So applying the rule twice in a row produces the
/// same projection as applying it once, whatever seed the second pass
/// uses.
pub proof fn lemma_aliased_items_idempotent(items: Seq<ItemV>, seed: nat, seed2: nat)
    ensures
        aliased_items(aliased_items(items, seed), seed2) == aliased_items(items, seed),
{
    let once = aliased_items(items, seed);
    assert forall|i: int| 0 <= i < once.len() implies aliased_item(once, i, seed2)
        == once[i] by {
        assert(once[i] == aliased_item(items, i, seed));
    };
    assert(aliased_items(once, seed2) =~= once);
}

/// Applying the alias rule twice in a row produces the same tree as
/// applying it once, whatever seeds the two passes use: on a body the
/// rule can decompose at all, the second pass changes nothing.
pub proof fn lemma_alias_idempotent(b: BodyV, seed: nat, seed2: nat)
    requires
        alias_body_spec(b, seed) is Some,
    ensures
        alias_body_spec(alias_body_spec(b, seed)->Some_0, seed2) == alias_body_spec(b, seed),
    decreases b,
{
    match b {
        BodyV::Select(items) => {
            lemma_aliased_items_idempotent(items, seed, seed2);
            let once = aliased_items(items, seed);
            assert forall|i: int| 0 <= i < once.len() implies !(#[trigger] once[i] is Other) by {
                assert(once[i] == aliased_item(items, i, seed));
            };
            assert(!has_wildcard(once));
        },
        BodyV::NestedQuery(q) => {
            lemma_alias_idempotent(q.body, seed, seed2);
        },
        BodyV::Other(h) => {},
    }
}

/// Idempotence at the rule level: where one alias pass succeeds on a
/// tree, a second pass — by the same instance gone further along its
/// counter, or any other — succeeds too and leaves the tree exactly as
/// the first pass left it.
pub proof fn lemma_alias_rule_idempotent(a: Alias, a2: Alias, q: QueryV)
    requires
        a.step(q).2,
    ensures
        a2.step(a.step(q).1).2,
        a2.step(a.step(q).1).1 == a.step(q).1,
{
    lemma_alias_idempotent(q.body, a.id as nat, a2.id as nat);
}

impl Alias {
    pub fn new(id: usize) -> (r: Self)
        ensures
            r.id == id,
    {
        Self { id }
    }

    /// Hands out the current counter value and advances the counter.
    pub fn get_uniq_id(&mut self) -> (r: usize)
        requires
            old(self).id < usize::MAX,
        ensures
            r == old(self).id,
            final(self).id == old(self).id + 1,
    {
        let id = self.id;
        self.id = self.id + 1;
        id
    }

    /// Builds the fresh alias for the current counter value and advances
    /// the counter.
    fn get_new_ident(&mut self) -> (r: String)
        requires
            old(self).id < usize::MAX,
        ensures
            r@ == alias_name(old(self).id as nat),
            final(self).id == old(self).id + 1,
    {
        let n = self.get_uniq_id();
        let mut s = "sqlrewriter-".to_owned();
        push_dec(&mut s, n);
        s
    }

    /// Finds the innermost SELECT through nested sub-queries and gives
    /// each non-trivial bare projection expression a fresh alias, in
    /// projection order. A wildcard item or an opaque body fails the whole
    /// call, leaving the tree and the counter untouched.
    pub fn add_alias_to_select_items(&mut self, q: &mut Query) -> (r: Result<(), RewriteError>)
        requires
            old(self).id + alias_fresh(old(q)@.body) <= usize::MAX,
        ensures
            ({
                match alias_body_spec(old(q)@.body, old(self).id as nat) {
                    Some(nb) => {
                        &&& r == Ok::<(), RewriteError>(())
                        &&& final(q)@ == (QueryV { body: nb, ..old(q)@ })
                        &&& final(self).id == old(self).id + alias_fresh(old(q)@.body)
                    },
                    None => {
                        &&& r == Err::<(), RewriteError>(RewriteError::UnsupportedConstruct)
                        &&& final(q)@ == old(q)@
                        &&& *final(self) == *old(self)
                    },
                }
            }),
    {
        // The whole call fails before anything is rewritten: no partial
        // aliasing is ever committed.
        if !body_alias_supported(&q.body) {
            proof {
                lemma_alias_supported(old(q)@.body, old(self).id as nat);
            }
            return Err(RewriteError::UnsupportedConstruct);
        }
        proof {
            lemma_alias_supported(old(q)@.body, old(self).id as nat);
        }
        self.inject_aliases(q);
        Ok(())
    }

    /// The rewrite pass itself, once the body is known decomposable.
    fn inject_aliases(&mut self, q: &mut Query)
        requires
            alias_supported(old(q)@.body),
            old(self).id + alias_fresh(old(q)@.body) <= usize::MAX,
        ensures
            final(q)@ == (QueryV {
                body: alias_body_spec(old(q)@.body, old(self).id as nat)->Some_0,
                ..old(q)@
            }),
            final(self).id == old(self).id + alias_fresh(old(q)@.body),
        decreases *old(q),
    {
        let ghost seed = self.id as nat;
        proof {
            lemma_alias_supported(old(q)@.body, seed);
        }
        match &mut q.body {
            QueryBody::Select(items) => {
                let ghost itemsv = items.deep_view();
                proof {
                    assert(old(q)@.body == BodyV::Select(itemsv));
                }
                let mut out: Vec<ProjectionItem> = Vec::new();
                let mut i: usize = 0;
                while i < items.len()
                    invariant
                        i <= items.len(),
                        itemsv == items.deep_view(),
                        !has_wildcard(itemsv),
                        seed + fresh_count(itemsv) <= usize::MAX,
                        self.id == seed + fresh_before(itemsv, i as int),
                        out@.len() == i,
                        forall|j: int|
                            0 <= j < i ==> out.deep_view()[j] == aliased_item(
                                itemsv,
                                j,
                                seed,
                            ),
                    decreases items.len() - i,
                {
                    let ghost out0 = out.deep_view();
                    proof {
                        assert(items[i as int]@ == itemsv[i as int]);
                        lemma_fresh_before_mono(itemsv, i + 1 as int, itemsv.len() as int);
                    }
                    match &items[i] {
                        ProjectionItem::Bare(e) => {
                            let triv = match e {
                                Expression::Identifier(n) => true,
                                Expression::CompoundIdentifier(p) => true,
                                Expression::Literal(v) => true,
                                _ => false,
                            };
                            if triv {
                                out.push(ProjectionItem::Bare(e.clone()));
                            } else {
                                let ident = self.get_new_ident();
                                out.push(ProjectionItem::Aliased(e.clone(), ident));
                            }
                        },
                        ProjectionItem::Aliased(e, n) => {
                            out.push(ProjectionItem::Aliased(e.clone(), n.clone()));
                        },
                        ProjectionItem::Other(h) => {
                            out.push(ProjectionItem::Other(*h));
                        },
                    }
                    proof {
                        assert(out.deep_view() =~= out0.push(out@[i as int]@));
                    }
                    i += 1;
                }
                *items = out;
                proof {
                    assert(q.body@ =~= BodyV::Select(aliased_items(itemsv, seed)));
                }
            },
            QueryBody::NestedQuery(inner) => {
                self.inject_aliases(&mut *inner);
                proof {
                    assert(q@ =~= (QueryV {
                        body: alias_body_spec(old(q)@.body, seed)->Some_0,
                        ..old(q)@
                    }));
                }
            },
            QueryBody::Other(h) => {
                proof {
                    assert(false);
                }
            },
        }
    }
}

/// Whether alias injection can decompose this body: used to fail the
/// whole call before anything is touched.
fn body_alias_supported(b: &QueryBody) -> (r: bool)
    ensures
        r == alias_supported(b@),
    decreases b,
{
    match b {
        QueryBody::Select(items) => {
            let ghost itemsv = items.deep_view();
            proof {
                assert(b@ == BodyV::Select(itemsv));
            }
            let mut i: usize = 0;
            while i < items.len()
                invariant
                    i <= items.len(),
                    itemsv == items.deep_view(),
                    b@ == BodyV::Select(itemsv),
                    forall|j: int| 0 <= j < i ==> !(#[trigger] itemsv[j] is Other),
                decreases items.len() - i,
            {
                let wild = match &items[i] {
                    ProjectionItem::Other(h) => true,
                    _ => false,
                };
                if wild {
                    proof {
                        assert(items[i as int]@ == itemsv[i as int]);
                        assert(has_wildcard(itemsv));
                    }
                    return false;
                }
                i += 1;
            }
            proof {
                assert(!has_wildcard(itemsv));
            }
            true
        },
        QueryBody::NestedQuery(q) => body_alias_supported(&q.body),
        QueryBody::Other(h) => false,
    }
}

impl Rule for Alias {
    open spec fn pre(&self, q: QueryV) -> bool {
        self.id + alias_fresh(q.body) <= usize::MAX
    }

    open spec fn step(&self, q: QueryV) -> (Self, QueryV, bool) {
        match alias_body_spec(q.body, self.id as nat) {
            Some(nb) => (
                Alias { id: (self.id + alias_fresh(q.body)) as usize },
                QueryV { body: nb, ..q },
                true,
            ),
            None => (*self, q, false),
        }
    }

    fn apply(&mut self, q: &mut Query) -> (r: Result<(), RewriteError>) {
        let r = self.add_alias_to_select_items(q);
        proof {
            if alias_body_spec(old(q)@.body, old(self).id as nat) is Some {
                assert(*self == (Alias {
                    id: (old(self).id + alias_fresh(old(q)@.body)) as usize,
                }));
            }
        }
        r
    }
}

} // verus!
