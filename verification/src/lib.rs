//! Scaffolding and building of game-mod projects against a vendor
//! development kit: unpacking the kit's zip archive safely, generating and
//! reading the persisted project descriptor, rewriting the kit's template
//! files, and sequencing the build tool around them.
//!
//! The two pipelines (`create` and `build`) are state machines that decide
//! everything and touch nothing: they hand filesystem and process actions
//! to the surrounding program and take the outcomes back as events.

use vstd::prelude::*;

pub mod archive;
pub mod codec;
pub mod config;
pub mod errors;
pub mod fsops;
pub mod java;
pub mod pipeline;
pub mod template;
pub mod text;

verus! {

} // verus!
