//! Reconstructs C-like structure definitions from a binary's embedded debug
//! metadata and flags two classes of data-layout defects: members placed at
//! offsets that violate their natural alignment, and aggregates whose names
//! promise a packed wire format but whose layouts contain padding.
//!
//! The extraction passes and the layout analysis are verified: each is
//! specified by a mathematical model of its result, and the packing
//! heuristic is pinned down exactly. The raw metadata is decoded through a
//! small set of trusted wrappers around the `gimli` reader; the naming
//! pattern is matched through a trusted wrapper around `regex`.

pub mod analysis;
pub mod dwarf;
pub mod extract;
pub mod model;
pub mod pattern;
