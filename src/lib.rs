//! Typed client model for a broadcast guide: channels, programs and the
//! strict decoding of the provider's JSON documents into them.

mod channel;
mod client;
mod document;
mod error;
mod json;
mod program;

pub use channel::{Channel, ChannelId, ChannelView};
pub use client::{channel_list_from_json, decode_channel_list, Schedule};
pub use error::{DecodeError, Error, Field};
pub use json::JsonValue;
pub use program::{Program, ProgramView};
