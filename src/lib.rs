//! Core logic of a command-line client for remote object-storage buckets:
//! URL path model, profile configuration, listing pipeline and the decisions
//! taken around the local state files.

pub mod client;
pub mod config;
pub mod input;
pub mod listing;
pub mod profiles;
pub mod state;
pub mod store;
pub mod text;
pub mod url_path;
