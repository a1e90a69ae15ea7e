//! Storage records the library builds or reads, and the decisions of the
//! storage writer.
pub mod pool;
pub mod types;
pub mod writer;
