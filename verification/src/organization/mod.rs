//! Optional, non-destructive library organization.
//!
//! Cadence never touches the user's files unless organization is explicitly
//! enabled. Even then, the flow is always:
//!
//! 1. Build a [`plan::OrganizationPlan`] describing every proposed move.
//! 2. Show the plan to the user for review (nothing has happened on disk yet).
//! 3. On confirmation, run the plan's [`plan::Execution`], which performs the
//!    moves one by one and records them in an [`plan::UndoLog`] that can
//!    reverse them.
//!
//! Filenames are always sanitized to be valid on common filesystems, and
//! collisions are detected up front rather than clobbering existing files.

pub mod plan;
pub mod safety;
pub mod template;

pub use plan::{Execution, FileMove, OrganizationPlan, PlanEntry, UndoLog};
pub use template::{sanitize_component, Preset, Template};
