//! Tracking of rental-unit listings over time: a data model for tracked
//! units, a reconciler that diffs a fresh snapshot against known state, a
//! textual diff renderer with line- and word-level granularity, and the
//! pure parts of the reporting pipeline around them.

pub mod api;
pub mod diff;
pub mod duration;
pub mod format;
pub mod jmap;
pub mod reconcile;
pub mod strutil;
pub mod tick;
pub mod wrap;
