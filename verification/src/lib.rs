//! A decentralized messaging node: its values, its wire format, the
//! decisions of its runtime, and its command queue and event bus.
pub mod action;
pub mod address;
pub mod bus;
pub mod channel;
pub mod chat;
pub mod command;
pub mod config;
pub mod data;
pub mod error;
pub mod event;
pub mod forum;
pub mod message;
pub mod model;
pub mod network;
pub mod node;
pub mod overlay;
pub mod peer;
pub mod profile;
pub mod settings;
pub mod text;
pub mod wire;

pub use libp2p::identity::Keypair;

pub use crate::address::Multiaddr;
pub use crate::channel::Channel;
pub use crate::channel::Target;
pub use crate::command::Command;
pub use crate::command::MessageCommand;
pub use crate::config::Config;
pub use crate::error::Error;
pub use crate::event::Event;
pub use crate::message::Message;
pub use crate::node::Node;
pub use crate::peer::PeerId;
