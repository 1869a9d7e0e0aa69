//! Host-bridge logic of a desktop assistant: workspace path resolution,
//! persisted settings and their shared state, command outcomes, directory
//! tree enumeration and response-stream relaying.

use vstd::prelude::*;

pub mod workspace;
pub mod config;
pub mod error;
pub mod text;
pub mod process;
pub mod files;
pub mod state;
pub mod tree;
pub mod credentials;
pub mod stream;

verus! {

} // verus!
