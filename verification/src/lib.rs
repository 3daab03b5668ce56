//! A small SQL query rewriter: a rule engine that mutates a query tree
//! (alias injection for complex projection expressions, ORDER BY synthesis
//! from the projection list, LIMIT overwrite) and hands the tree back for
//! rendering. Parsing and rendering are external collaborators; the tree
//! rewritten here is this crate's own model of the query.

pub mod ast;
pub mod rules;
