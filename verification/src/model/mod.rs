//! Strategy models: the model contract types, fractional-Kelly sizing and the
//! baseline direction model.
pub mod types;
pub mod sizing;
pub mod snapshot;
pub mod baseline;
pub mod registry;
pub mod runtime;
