//! Media tagging core: perceptual deduplication, tensor preprocessing, tag
//! decoding and scene-aware frame sampling, each with its contract.
//!
//! - `fingerprint`, `dedup`: 64-bit image fingerprints and "first occurrence wins"
//!   removal of near duplicates.
//! - `raster`, `processor`: decoded images as plain values, and their fitting,
//!   centering and layout into model tensors.
//! - `tags`, `pipeline`, `score`: the label catalog and the decoding of scores into
//!   filtered, ranked tags per category.
//! - `video`: scene-change frame sampling and the per-video fold of frame results.
//! - `rating`, `tag`, `summary`: content rating, tag display form and stored records.
//! - `media`, `file`, `config`, `args`, `tagger`, `screen`, `text`: file kinds, model
//!   file locations, configurations, model and device choices, interface navigation
//!   and string helpers.

pub mod args;
pub mod config;
pub mod dedup;
pub mod digest;
pub mod file;
pub mod fingerprint;
pub mod media;
pub mod pipeline;
pub mod processor;
pub mod raster;
pub mod rating;
pub mod score;
pub mod screen;
pub mod summary;
pub mod tag;
pub mod tagger;
pub mod tags;
pub mod text;
pub mod video;
