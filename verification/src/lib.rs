pub mod actions;
pub mod categorize;
pub mod config;
pub mod dedupe;
pub mod paths;
pub mod planner;
pub mod utils;

pub use actions::{Action, ActionEngine};
pub use categorize::{Categorizer, Category, DirProfile};
pub use config::Settings;
pub use dedupe::{DedupeMethod, DedupeMode, DedupePlan, FileInfo};
pub use planner::{Entry, EntryKind, Planner};
pub use utils::{is_pattern_match, readable_display};
