//! A benchmark harness for round-trip decoding of structured-data formats:
//! a reproducible synthetic object graph, the decisions of one trial over
//! every format, and the aggregation of timing samples.
pub mod random;
pub mod thing;
pub mod durations;
pub mod trial;
