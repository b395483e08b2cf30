//! Clipboard synchronisation between two hosts over one line-delimited
//! message stream: the wire codec, the session state machine, the
//! clipboard commands, and the two ends of a connection.
pub mod codec;
pub mod command;
pub mod peer;
pub mod session;
pub mod text;
