//! Verified core of an environment-variable inspection tool.
//!
//! The library matches variable names against glob or regular-expression
//! patterns, splits values into segments on a configurable separator
//! character set, searches and highlights within segments, annotates
//! segments whose content is a missing filesystem path, resolves the
//! color palette that drives rendering, and composes the final output
//! lines.  Text is carried as `Vec<char>`, viewed as `Seq<char>`.
//!
//! - [`glob`], [`regexes`], [`pattern`]: the two name-pattern forms and
//!   their single matching capability.  Glob matching is implemented and
//!   verified here; regular expressions are compiled and run by the regex
//!   engine behind the trusted boundary in [`regexes`].
//! - [`split`]: the lossless segmentation of a value, with its round-trip
//!   law.
//! - [`escape`], [`annotate`]: control-character escaping, per-segment
//!   search and highlighting, and the elision of non-matching runs.
//! - [`palette`]: override parsing and palette resolution.
//! - [`order`]: the lexicographic display order and a verified sort.
//! - [`render`], [`engine`]: line composition per variable, and the whole
//!   run over a snapshot with an injected existence predicate.
//! - [`config`]: the run configuration and the fatal configuration
//!   errors.

pub mod annotate;
pub mod config;
pub mod engine;
pub mod escape;
pub mod glob;
pub mod order;
pub mod palette;
pub mod pattern;
pub mod regexes;
pub mod render;
pub mod split;
pub mod text;
