//! Alert scheduling and delivery for review notifications.
//!
//! The library decides, for each member of each guild, whether a report is
//! due, which review items concern the member, how those items are rendered
//! into size-bounded messages, and which messages of a channel have to be
//! replaced. Everything that touches the network, the clock or the disk is
//! left to the caller, which hands plain values in and gets plain values back.

pub mod config;
pub mod delivery;
pub mod error;
pub mod github;
pub mod ids;
pub mod render;
pub mod report;
pub mod resync;
pub mod scheduler;
pub mod settings;
pub mod text;
pub mod time;
pub mod window;
