//! Runs a command while recording its provenance in a metadata store.
//!
//! - [`git`]: the repository snapshot a run starts from.
//! - [`props`]: the property manifest and the values recorded for a run,
//!   secrets reduced to their keys.
//! - [`run`]: the run options and the state machine that orders the store
//!   requests, the spawn, the capture, the uploads and the terminal state.
//! - [`capture`]: the capture of the child's two output streams.
//! - [`get`], [`util`]: options of the listing subcommands and of the store.
//! - [`text`]: string operations the others build on.
use vstd::prelude::*;

pub mod capture;
pub mod get;
pub mod git;
pub mod props;
pub mod run;
pub mod text;
pub mod util;

verus! {

} // verus!
