//! A verified synchronization engine for a portable media player's music
//! library: content-fingerprint deduplication, idempotent import, artwork
//! deduplication, playlist management, case-insensitive search, and a
//! single-writer command loop whose every mutating command ends by
//! persisting the library.

#![verifier::loop_isolation(false)]

pub mod artwork;
pub mod audio;
pub mod config;
pub mod db;
pub mod dlp;
pub mod engine;
pub mod events;
pub mod import;
pub mod layout;
pub mod search;
pub mod text;
pub mod util;
