//! Post-execution transformation layer of a provable SQL query engine.
//!
//! A query's result arrives here as a fully materialized columnar table whose
//! values are already bound to an externally produced correctness proof.  This
//! layer reorders such a table — it never rewrites a value — by deriving a row
//! permutation from an ORDER BY specification and applying that permutation
//! uniformly across every column.

pub mod column;
pub mod compare;
pub mod order_by;
pub mod ordering;
pub mod permutation;
pub mod scalar;
pub mod table;
pub mod time;
