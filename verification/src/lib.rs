//! Session logic of a text-chat WebSocket client.
//!
//! The library holds what the client decides, and none of its input or
//! output: it is handed what happened on the connection and says what is to
//! be done about it.
//!
//! - `user`, `roster`, `registry`: the users of the channel, the changes
//!   that the server announces, and the registry that follows them.
//! - `cmd`: the commands that a chat line may hold behind the sentinel `::`.
//! - `json`, `msg_parser`, `outbound`: the wire codec, from text to message
//!   and from command to text.
//! - `event`, `client`: the session as a state machine, from event to
//!   actions.
//! - `text`, `config`: helpers on text, and the arguments of the program.

pub mod client;
pub mod cmd;
pub mod config;
pub mod event;
pub mod json;
pub mod msg_parser;
pub mod outbound;
pub mod registry;
pub mod roster;
pub mod text;
pub mod user;
