//! Launcher logic for the FemboyLose game-mod launcher: release metadata,
//! checksum tables, Steam library discovery and the download-and-launch flow.
use vstd::prelude::*;

pub mod checksum;
pub mod closing;
pub mod error;
pub mod launch;
pub mod release;
pub mod steam;
pub mod text;
pub mod vdf;
pub mod version;

verus! {
} // verus!
