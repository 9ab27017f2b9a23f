//! Verified core of the relink-logs tools: the sigil synthesis predictor, the
//! portable file layout, the hook's data paths, window geometry decisions,
//! player identity bookkeeping and the skill-name backfill key derivation.

pub mod synthesis;
mod text;
pub mod layout_path;
pub mod portable;
pub mod hook_paths;
pub mod identity;
pub mod hooks;
pub mod backfill;
pub mod window_state;
