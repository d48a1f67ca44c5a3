//! Transit schedule snapshots: a keyed intermediate representation, structural
//! deltas between snapshots, a bounded snapshot history with a delta catalogue,
//! and the edge cache that fronts the schedule service.
//!
//! The modules, from the ground up:
//!
//! - [`item`] and [`keyed`]: values with a mathematical model, and maps and
//!   sets of them;
//! - [`messages`], [`feed`] and [`ir`]: what goes over the wire, what comes
//!   out of the upstream bundle, and the snapshot in between;
//! - [`clock`], [`calendar`] and [`builder`]: from a parsed schedule and a
//!   window of days to a snapshot;
//! - [`delta`], [`diff`] and [`laws`]: deltas between snapshots and what
//!   holds of them;
//! - [`wire`]: from snapshots and deltas to messages;
//! - [`history`] and [`server`]: the store of recent snapshots and the
//!   service that answers from it;
//! - [`updater`] and [`cacher`]: the decisions of the two loops around the
//!   service;
//! - [`error`] and [`log`].

pub mod builder;
pub mod cacher;
pub mod calendar;
pub mod clock;
pub mod delta;
pub mod diff;
pub mod error;
pub mod feed;
pub mod history;
pub mod ir;
pub mod item;
pub mod keyed;
pub mod laws;
pub mod log;
pub mod messages;
pub mod server;
pub mod updater;
pub mod wire;
