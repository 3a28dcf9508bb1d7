//! The message-bus side of the controller: the broker configuration and the
//! decoding of inbound command messages. The session that talks to the
//! broker lives with the runtime.

pub mod command;
pub mod configuration;
pub mod status;
