//! The rewrite rules and the engine that runs them.

mod alias;
mod engine;
mod limit;
mod orderby;
mod rule;

pub use alias::alias_body_spec;
pub use alias::alias_fresh;
pub use alias::alias_name;
pub use alias::alias_supported;
pub use alias::aliased_item;
pub use alias::aliased_items;
pub use alias::dec_digits;
pub use alias::digit_char;
pub use alias::fresh_before;
pub use alias::fresh_count;
pub use alias::has_wildcard;
pub use alias::lemma_alias_idempotent;
pub use alias::lemma_alias_name_injective;
pub use alias::lemma_alias_rule_idempotent;
pub use alias::lemma_alias_names_distinct;
pub use alias::lemma_alias_names_exhaustive;
pub use alias::lemma_alias_names_sequential;
pub use alias::lemma_alias_supported;
pub use alias::lemma_aliased_items_idempotent;
pub use alias::lemma_fresh_before_mono;
pub use alias::needs_alias;
pub use alias::trivial_expr;
pub use alias::Alias;
pub use engine::config_rules;
pub use engine::count_fresh_aliases;
pub use engine::rewrite;
pub use engine::rules_pre;
pub use engine::run_rules;
pub use engine::RuleEngine;
pub use engine::RuleKind;
pub use limit::limit_step;
pub use limit::Limit;
pub use orderby::change_orderby;
pub use orderby::extract_expr_from_select_item;
pub use orderby::extract_spec;
pub use orderby::get_select_items;
pub use orderby::item_extract;
pub use orderby::order_term_of;
pub use orderby::order_terms_spec;
pub use orderby::order_worthy;
pub use orderby::orderby_step;
pub use orderby::Orderby;
pub use rule::Rule;
