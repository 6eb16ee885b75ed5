//! Workspace-to-session switcher for a terminal multiplexer.
//!
//! The library holds the orchestration logic: resolving a workspace name
//! against the configured registry, deciding which multiplexer invocations
//! to issue, parsing the multiplexer's session listing, and classifying
//! failures. Running the external tool itself is left to the caller, which
//! performs each requested invocation and hands the captured result back.

use vstd::prelude::*;

pub mod client;
pub mod resolver;
pub mod runner;
pub mod settings;

verus! {

} // verus!
