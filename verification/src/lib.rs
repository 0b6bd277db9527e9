//! Recent-activity tracking for a chat companion that reveals messages
//! deleted or edited shortly after they were posted.
//!
//! The crate holds the in-memory engine only: a bounded cache of recently
//! seen messages, a bounded log of deleted and edited messages, the
//! correlation of delete and edit notifications with the cache, and the
//! command that takes the oldest queued record of a channel and turns it into
//! a notification. Talking to the chat platform is left to the caller.

pub mod fifo;
pub mod identity;
pub mod cache;
pub mod activity;
pub mod correlator;
pub mod trigger;
pub mod command;
