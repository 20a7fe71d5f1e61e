//! Line configuration for GPIO chips and the value, direction and pull codes of
//! a simulated chip.
//!
//! A [`line_config::Config`] maps line offsets to [`line::Settings`]; it keeps
//! the offsets in the order in which they were first assigned, and a later
//! assignment to an offset replaces the earlier one. The [`sim`] module holds
//! the enumerations that a simulated bank speaks in and their numeric codes.
//! Failures are reported as [`error::Error`]; [`error`] also holds the checks
//! by which a binding to a native GPIO library turns a null handle or a
//! failure status into such an error. [`entries`] states what an assignment
//! makes of a configuration, and proves what follows from it.

pub mod entries;
pub mod error;
pub mod line;
pub mod line_config;
pub mod sim;
