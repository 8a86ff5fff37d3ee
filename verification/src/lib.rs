//! A small vectorized query-execution engine over typed columnar data.
//!
//! Values of twelve primitive types flow through column vectors; expressions
//! are evaluated column-at-a-time against record batches; pull-based physical
//! operators (scan, projection, selection) compose into pipelines, and
//! accumulators fold whole columns for aggregation.
//!
//! Floating-point values are carried as their IEEE 754 bit patterns; every
//! operation on them here (comparison, rounding to integers) is integer
//! arithmetic on those patterns, stated and proved over the encoding's fields.

pub mod errors;
pub mod value;
pub mod floats;
pub mod numtext;
pub mod cast;
pub mod column_vector;
pub mod builder;
pub mod schema;
pub mod record_batch;
pub mod expressions;
pub mod aggregates;
pub mod physical_plan;
pub mod logical_plan;
