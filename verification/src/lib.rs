//! Builds themed output files by rendering every template of a template
//! registry against every color scheme of a scheme store.
//!
//! A scheme is a named palette of sixteen color slots plus a display name and
//! an author; a template descriptor names a template source together with the
//! extension and directory of its rendered outputs. The pipeline validates
//! both collections, forms their cross product, and produces one rendered
//! file per pair under a deterministic name, guarded by an overwrite policy.

pub mod error;
pub mod text;
pub mod yaml;
pub mod scheme;
pub mod template;
pub mod engine;
pub mod pipeline;
