//! Typed construction of SQL query fragments: type tags, bound parameters,
//! column visibility through joins, and emission of SQL text with an ordered
//! list of bound values.
pub mod types;
pub mod codec;
pub mod backend;
pub mod expression;
pub mod query_builder;
pub mod table;
pub mod join;
pub mod eval;
pub mod execute;
