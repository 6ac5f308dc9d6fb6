//! Keeps rows of a structured-database service in step with assignments
//! fetched from a learning-management service.
//!
//! The library holds everything that can be stated and proved: the
//! destination's polymorphic property model and its exact wire shapes
//! ([`notion`], over the JSON trees of [`json`]), the query predicates
//! ([`filter`]), the upstream records ([`canvas`]), and the reconciliation
//! itself ([`reconcile`]): matching pages to assignments by their
//! correlation id, detecting name and due-date drift at whole-minute
//! precision, and deciding the create and update calls owed. The network,
//! the configuration and the console stay outside, handing the library
//! plain values and carrying its answers out.

pub mod canvas;
pub mod filter;
pub mod json;
pub mod notion;
pub mod reconcile;
pub mod time;
pub mod util;
