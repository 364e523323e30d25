//! The read-only listing subcommands.
use vstd::prelude::*;

verus! {

/// Lists the artifacts of the metadata store.
pub struct GetArtifactsOpt {
    pub database: String,
}

/// Lists the contexts of the metadata store.
pub struct GetContextsOpt {
    pub database: String,
}

/// Lists the events of the metadata store.
pub struct GetEventsOpt {
    pub database: String,
}

/// Lists the executions of the metadata store.
pub struct GetExecutionsOpt {
    pub database: String,
}

/// Which listing to print.
pub enum GetOpt {
    Artifacts(GetArtifactsOpt),
    Contexts(GetContextsOpt),
    Events(GetEventsOpt),
    Executions(GetExecutionsOpt),
}

impl GetOpt {
    /// The metadata store the listing reads.
    pub fn database(&self) -> (r: &String)
        ensures
            r == match self {
                GetOpt::Artifacts(o) => &o.database,
                GetOpt::Contexts(o) => &o.database,
                GetOpt::Events(o) => &o.database,
                GetOpt::Executions(o) => &o.database,
            },
    {
        match self {
            GetOpt::Artifacts(o) => &o.database,
            GetOpt::Contexts(o) => &o.database,
            GetOpt::Events(o) => &o.database,
            GetOpt::Executions(o) => &o.database,
        }
    }
}

} // verus!
