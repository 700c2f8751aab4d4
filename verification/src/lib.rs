//! A verified protocol engine for the FreeSWITCH event-socket control channel.
//!
//! The library contains the pure core of an event-socket client: the frame
//! codec that turns a byte stream into messages, the message model, the
//! command/reply correlator and background-job tracker, the response-code
//! parser, and the inbound/outbound session handshakes.  Socket I/O and task
//! scheduling live outside the library; they hand byte buffers and decoded
//! messages in and carry commands and routed replies out.

use vstd::prelude::*;

pub mod codec;
pub mod engine;
pub mod error;
pub mod json;
pub mod message;
pub mod reply;
pub mod session;
