//! The core of a version manager for the Godot engine.
//!
//! The library decides; it does not touch the disk or the network. Its
//! callers read files, list directories and fetch documents, hand what they
//! found to the library as plain values, and perform what the library asks
//! for. Every function states in its contract what it returns, and is
//! verified against it.
//!
//! - `version_utils`, `version_laws`: partial and concrete versions, their
//!   textual forms, matching, and the newest-first order.
//! - `project_version_detector`: the version that a project file asks for.
//! - `registry`, `metadata_cache`, `releases`: the release registry, the
//!   cached metadata document, and the catalog that keeps both fresh.
//! - `registry_version_resolver`, `run_version_resolver`: from a request to
//!   one version.
//! - `installer`, `checksum`, `zip_utils`, `artifact_cache`: downloading,
//!   verifying and unpacking a release.
//! - `launcher`, `links`, `godot_manager`, `paths`: finding and starting
//!   the engine, the default, the pin and the home layout.
//! - `self_update`: updates of the tool itself.
//! - `cli`, `config`, `host`, `error`, `text`, `release_tags`,
//!   `download_utils`: what the rest builds on.

pub mod artifact_cache;
pub mod checksum;
pub mod cli;
pub mod config;
pub mod download_utils;
pub mod error;
pub mod godot_manager;
pub mod host;
pub mod installer;
pub mod launcher;
pub mod links;
pub mod metadata_cache;
pub mod paths;
pub mod project_version_detector;
pub mod registry;
pub mod registry_version_resolver;
pub mod release_tags;
pub mod releases;
pub mod run_version_resolver;
pub mod self_update;
pub mod text;
pub mod version_laws;
pub mod version_utils;
pub mod zip_utils;
