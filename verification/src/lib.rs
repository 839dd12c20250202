//! Decision logic of a WebRTC / SIP media endpoint.

pub mod action;
pub mod address;
pub mod applied;
pub mod apt;
pub mod capability;
pub mod codec;
pub mod config;
pub mod connection;
pub mod describe;
pub mod direction;
pub mod error;
pub mod ident;
pub mod lines;
pub mod local;
pub mod matching;
pub mod nack;
pub mod negotiate;
pub mod order;
mod outside;
pub mod receiver;
pub mod registry;
pub mod remote;
pub mod rtp;
pub mod rtx;
pub mod sdes;
pub mod sdp;
pub mod search;
pub mod sender;
pub mod signaling;
pub mod state;
pub mod stream;
pub mod text;
pub mod transceiver;
pub mod written;
