//! leaf: the verified core of a daily photo/video archive service.
//!
//! Text handling, series domain types, creation and visibility policy,
//! streak statistics, milestone detection, day-number parsing, reminder
//! scheduling rules, thumbnails, session-token signing and the migration
//! mapping rules.

pub mod text;
pub mod domain;
pub mod stats;
pub mod milestone;
pub mod policy;
pub mod clock;
pub mod series_ops;
pub mod parser;
pub mod reminder;
pub mod wrapped;
pub mod media;
pub mod thumbnail;
pub mod config;
pub mod mapping;
pub mod store;
pub mod transfer;
pub mod source;
pub mod importer;
pub mod auth;
pub mod dto;
pub mod api_error;
pub mod gallery;
pub mod discord;
pub mod admin;
pub mod setup;
pub mod bot;
