//! The tools that clients call.
pub mod compaction;
pub mod conversation;
pub mod dto;
pub mod entries;
pub mod lifecycle;
pub mod registry;
pub mod requests;
pub mod sessions;
pub mod uploads;
pub mod wire;
