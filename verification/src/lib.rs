//! The logic of a server on which several people edit draw.io diagrams together.
//!
//! Requests, frames and events come in as plain values, and what to do about them goes out as plain
//! values: replies, messages, files to write, commits to make. Reading, writing and sending is left
//! to the program around the library.

pub mod ai;
pub mod auth;
pub mod color;
pub mod files;
pub mod git_versioning;
pub mod http;
pub mod listing;
pub mod loading;
pub mod messages;
pub mod outside;
pub mod paths;
pub mod room;
pub mod state;
pub mod streams;
pub mod text;
pub mod upload;
pub mod versions;
pub mod watcher;
pub mod ws;
pub mod xml;
