//! Laws that hold across the functions of the library. Each is a relation between
//! what goes into an operation and what comes out of it.
pub mod answers;
pub mod background;
pub mod compaction;
pub mod conversation;
pub mod events;
pub mod keeping;
pub mod listing;
pub mod output;
pub mod rendering;
pub mod requests;
pub mod storage;
pub mod tasks;
pub mod texts;
pub mod transcript;
