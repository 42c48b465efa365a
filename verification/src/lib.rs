//! Core of a song-classification dataset builder.
//!
//! The library turns a user's saved tracks into a labeled training dataset:
//! each track's nested audio analysis is flattened into one fixed-schema
//! record, an interactive session assigns category labels to a subset of the
//! tracks, and the records are committed to a split-tagged store ("train" for
//! labeled tracks, "test" for the rest).  Everything here is plain
//! computation; console and network plumbing lives outside the library.

pub mod account;
pub mod data_structs;
pub mod dataset;
pub mod labels;
pub mod misc_helpers;
