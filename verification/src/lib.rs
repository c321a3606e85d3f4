//! The sandboxed file tools and the agent loop of the Launchpad desktop
//! application, as a library of verified decisions. Everything that touches
//! the file system or the network is done by the caller and handed in as
//! plain values.

pub mod agent;
pub mod analyzer;
pub mod catalog;
pub mod chat;
pub mod credentials;
pub mod errors;
pub mod glob_filter;
pub mod ideas;
pub mod listing;
pub mod paths;
pub mod projects;
pub mod reader;
pub mod search;
pub mod settings;
pub mod shot_clock;
pub mod sops;
pub mod text;
pub mod tools;
pub mod tree;
pub mod walk;
