//! Client-side core of a line-oriented button sensor protocol.
//!
//! A sensor reports the position of its buttons as lines of text over a byte
//! stream, one frame per line: `{INDEX,STATE}` and a line terminator. This
//! crate holds what a client needs between the socket and its consumer:
//!
//! - [`reader`]: cutting the bytes of the stream into lines;
//! - [`button`]: decoding one line into a [`ButtonPackage`], with
//!   [`frame`] for the shape of a frame, [`index`] for its index field and
//!   [`state`] for its state code;
//! - [`connection`]: the decisions of the loop that reads a connection;
//! - [`bytes`]: the bytes of the protocol, and searching for them.
//!
//! Nothing here performs I/O. The caller reads from the stream and hands the
//! bytes over.

pub mod button;
pub mod bytes;
pub mod connection;
pub mod frame;
pub mod index;
pub mod reader;
pub mod state;

pub use crate::button::{decode, ButtonPackage, ButtonValuable, DecodeResult};
pub use crate::connection::{loopback_address, LoopState, Notice};
pub use crate::reader::{LineReader, LineResult};
pub use crate::state::ButtonState;
