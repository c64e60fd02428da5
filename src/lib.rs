//! Bulk renaming driven by an edited list of paths.
//!
//! The caller lists the target paths, lets the user edit that list, and
//! reads it back. This library decides what the edit means and how to carry
//! it out:
//! - `plan` pairs each original path with its edited counterpart, position
//!   by position, and keeps the pairs that changed;
//! - `session` steps through such a plan under a dry-run, confirm-each or
//!   apply-all policy, telling its driver which outside action comes next;
//! - `definition` writes and reads the line-per-path list;
//! - `editor` judges how the editor process ended;
//! - `error` holds the error types.
pub mod definition;
pub mod editor;
pub mod error;
pub mod plan;
pub mod session;

pub use definition::{parse_definition, render_definition};
pub use editor::check_editor_status;
pub use error::{CliError, EditorError, RenameError};
pub use plan::list_changed;
pub use session::{Action, Event, Renamer};
