//! Room runtime of a multi-user competitive-programming server: the per-room
//! state machine, the process-wide room registry, the chat ring, the wire
//! codec and the judge's result processing, all with verified contracts.

pub mod json;
pub mod model;
pub mod chat;
pub mod protocol;
pub mod room;
pub mod registry;
pub mod judge;
pub mod codec;
pub mod server_codec;
pub mod sessions;
