//! Verified core of a Rust toolchain version manager.
//!
//! - `text`: the character-level model of trimming, splitting and matching;
//! - `releases`: channel manifests, the release list, and resolving a version
//!   string to a cache tag;
//! - `layout`: the install prefix, the version cache and the active-version marker;
//! - `cache`: cache keys, choosing among cached versions, listing and pruning;
//! - `platform`: target triples and download URLs;
//! - `install`: classifying user input, canonical cache keys, choosing what
//!   to use or remove;
//! - `update`: updating the program itself;
//! - `flow`: the install / fetch / run decisions as a state machine.

pub mod text;
pub mod releases;
pub mod layout;
pub mod cache;
pub mod platform;
pub mod install;
pub mod update;
pub mod flow;
