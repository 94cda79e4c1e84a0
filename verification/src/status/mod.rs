//! Tiered Git reads: what state each discovered repository is in.
//!
//! - [`tier0`] — refs only: branch, upstream, ahead/behind, stash, state, tip commit, age.
//! - [`tier1`] — the dirty flag and the conflicted count.
//! - [`tier2`] — the full file counts and the submodule list, read on demand.

pub mod repo;
pub mod tier0;
pub mod tier1;
pub mod tier2;
