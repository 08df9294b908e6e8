//! A flattening engine for a hierarchical hardware-circuit intermediate
//! representation.
//!
//! The crate inlines submodule instances into a single flat dependency graph:
//! every wire of the source design receives a dense flat identity, every
//! operation becomes a schedulable unit with an explicit readiness rule, and
//! every flat value carries the boolean guard under which it is driven.

pub mod common;
pub mod error;
pub mod events;
pub mod flatten;
pub mod guard;
pub mod interp;
pub mod ir;
pub mod module_view;
pub mod reducer;
pub mod utils;
