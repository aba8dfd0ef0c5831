//! Fetches, caches and unpacks speech-recognition models per language: a fixed catalog of
//! models, the paths derived for each under the per-user data and cache directories, and
//! the decisions of an idempotent download-and-unpack run.
pub mod dirs;
pub mod install;
pub mod model;
pub mod text;
