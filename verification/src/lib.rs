//! # cadence_core
//!
//! The verified engine behind Cadence, a native music library application.
//!
//! This crate holds the parts of Cadence that decide things: the plain data
//! model, the path templates and organisation plans, metadata completeness
//! checks, MusicBrainz query building and response interpretation, the play
//! queue, and the small policies of the library worker. Every executable
//! function here carries a contract that Verus proves.
//!
//! Disk, database, network, audio and GUI work live outside this crate; they
//! hand plain values in and take plain values back.
//!
//! ## Module map
//!
//! - [`text`] — character-level helpers (decimal rendering, whitespace, case).
//! - [`models`] — plain data types (`Track`, `Album`, `Artist`, …).
//! - [`paths`] — path operations and XDG data/cache locations.
//! - [`metadata`] — missing-field detection.
//! - [`organization`] — path templates, preview plans, execution and undo.
//! - [`artwork`] — stable cache keys for artwork.
//! - [`lookup`] — MusicBrainz / Cover Art Archive query and answer handling.
//! - [`db`] — search-query and ordering helpers of the library database.
//! - [`queue`] — the ordered play queue with shuffle and repeat, and the
//!   player and media-key policies.
//! - [`service`] — policies of the background library worker.
//! - [`search`] — the library-wide search sections and the newest albums.
//! - [`watch`] — file-change notifications and their debounce.
//! - [`display`] — formatting helpers for list UIs.

pub mod artwork;
pub mod db;
pub mod display;
pub mod lookup;
pub mod metadata;
pub mod models;
pub mod organization;
pub mod paths;
pub mod queue;
pub mod search;
pub mod service;
pub mod text;
pub mod watch;

use vstd::prelude::*;

verus! {

/// The application's reverse-DNS identifier, shared by the GUI, the desktop
/// entry, GSettings and MPRIS.
pub const APP_ID: &'static str = "org.cadence.Cadence";

/// Human-readable application name.
pub const APP_NAME: &'static str = "Cadence";

/// Wordmark used in the header ("Cadence.").
pub const APP_WORDMARK: &'static str = "Cadence.";

} // verus!
