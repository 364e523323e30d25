//! Options shared by the subcommands.
use vstd::prelude::*;

verus! {

/// Where the metadata store lives: a connection string such as `sqlite://mlmd.db`.
pub struct MetadataStoreOpt {
    pub database: String,
}

} // verus!
