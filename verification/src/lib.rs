//! Watches chat channels and decides when to join a race: a channel plays
//! once enough of its latest messages ask for it, and not again before a
//! cooldown is over.
pub mod channel;
pub mod config;
pub mod dispatch;
pub mod laws;
pub mod matcher;
pub mod model;
pub mod tally;

pub use channel::ChannelMarbleState;
pub use config::{AppParams, ConfigError};
pub use dispatch::{process_message, ChatEvent, MarbleStates, Play};
pub use matcher::{is_play_request, starts_with};
pub use model::Decision;
