//! A small key-value store speaking a line-oriented, Redis-like wire
//! protocol: a frame codec that turns a byte stream into text lines and
//! responses back into bytes, a command parser, and a dispatch service
//! that runs commands against a shared string-to-string store.

pub mod codec;
pub mod command;
pub mod response;
pub mod service;
pub mod store;

pub use codec::DecodeError;
pub use codec::LineCodec;
pub use command::Command;
pub use command::ParseError;
pub use response::KVResponse;
pub use service::KVService;
pub use store::KeyValueStore;
