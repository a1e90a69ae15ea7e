//! The HTTP API's rules: request checks, labels, dry-run probes and the shapes
//! of the runtime reports it returns.
pub mod dto;
pub mod guards;
pub mod views;
