//! Git repository discovery, tiered status reads, and the canonical row state that a
//! dashboard of many repositories is built from.
//!
//! Every row is merged tier by tier: Tier 0 (refs), Tier 1 (the dirty flag and the
//! conflicted count) and Tier 2 (the full file counts and the submodule list). The merge
//! functions in [`merge`] decide which tier owns which field, and [`state`] holds the one
//! canonical map the merged rows live in.

pub mod model;
pub mod clock;
pub mod discover;
pub mod exe;
pub mod error;
pub mod fetch;
pub mod live;
pub mod merge;
pub mod open;
pub mod paths;
pub mod pathmap;
pub mod pipeline;
pub mod refresh;
pub mod settings;
pub mod state;
pub mod status;
pub mod stream;
pub mod text;
pub mod watch;
pub mod webview;
