//! The tunnel protocol: messages, their wire format and the topic session.

pub mod message;
pub mod reader;
pub mod session;
pub mod text;
pub mod wire;

pub use message::{Msg, MsgKind, MsgView};
pub use reader::FrameReader;
pub use session::{
    Action, Callback, CallbackEvent, Dispatch, Handshake, IOEvent, IOInterest, RawFd,
    Registration, Step, Topic, TopicError, TopicState,
};
pub use wire::{decode, encode, FrameError};
