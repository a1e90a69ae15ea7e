//! Options of the database connection pool.
use vstd::prelude::*;

verus! {

/// How many connections the pool may open.
#[derive(Debug, Clone, Copy, PartialEq, Eq)]
pub struct PgPoolOptionsConfig {
    pub max_connections: u32,
}

impl Default for PgPoolOptionsConfig {
    /// Five connections.
    fn default() -> (r: PgPoolOptionsConfig)
        ensures
            r.max_connections == 5,
    {
        PgPoolOptionsConfig { max_connections: 5 }
    }
}

} // verus!
