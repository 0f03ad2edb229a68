//! Typed channels that bridge simulated and live environments.
//!
//! A [`ChannelAdapter`] buffers messages on up to 256 numbered channels. Every
//! message records whether it came from a simulation, and
//! [`ChannelAdapter::bridge`] moves the simulated messages of one channel to
//! another while the live ones stay where they are.
//!
//! The behaviour of the adapter is stated over [`AdapterModel`], a mathematical
//! picture of its state. What its parts and its operations mean is stated in
//! [`meaning`], and what holds of the adapter as a whole is proved in
//! [`laws`].
pub mod adapter;
pub mod clock;
pub mod kind;
pub mod laws;
pub mod layer;
pub mod meaning;
pub mod message;
pub mod model;
pub mod score;

pub use adapter::{ChannelAdapter, ChannelStats};
pub use kind::{ChannelKind, ChannelMode};
pub use layer::ChannelLayer;
pub use message::{ChannelMessage, MessageModel};
pub use model::AdapterModel;
pub use score::Score;
