//! A micro-benchmark harness that measures encode/decode cost and wire-size
//! overhead of several serialization formats against one fixed synthetic
//! record shape. The harness itself is verified: the record model, the
//! theoretical-minimum size floor, the measurement runner and the report
//! arithmetic. The format adapters are outside collaborators that only hand
//! the runner what they observed.

pub mod minimum;
pub mod product;
pub mod random;
pub mod report;
pub mod runner;
