//! Portable Task Scheduler model, validation, XML and desired-state planning.
#![allow(unused_imports)]

use vstd::prelude::*;

pub mod text;
mod error;
mod validation;
mod path;
pub mod model;
pub mod schedule;
pub mod client;
pub mod reconcile;
pub mod manifest;
pub mod xml;
pub mod markup;
pub mod xml_read;
pub mod xml_triggers;
pub mod xml_write;
pub mod xml_laws;
pub mod history;
pub mod wait;
pub mod validation_laws;
pub mod xml_round_trip;
pub mod cron_laws;

pub use error::{native_error, native_error_kind, require_yes, Error, ErrorKind, ErrorView};
pub use path::{FolderPath, ParsePathError, TaskPath};
pub use validation::{Diagnostic, DiagnosticCode, DiagnosticLevel, DiagnosticReport, ValidationReport};

verus! {

/// The maximum number of actions accepted by Task Scheduler 2.0.
pub const MAX_ACTIONS: usize = 32;

/// The maximum number of triggers accepted by Task Scheduler 2.0.
pub const MAX_TRIGGERS: usize = 48;

/// The maximum number of values accepted by `IRegisteredTask::Run`/`RunEx`.
pub const MAX_RUN_ARGUMENTS: usize = 32;

} // verus!
