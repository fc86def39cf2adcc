//! Core logic of a Soulseek client: search syntax, the shared-file word
//! index, search bookkeeping, the wire protocol and its framing, the server
//! session state machine, peer messages, transfer bookkeeping and the
//! rules of the transfer pipeline.

pub mod clock;
pub mod command;
pub mod config;
pub mod digest;
pub mod event;
pub mod io;
pub mod network;
pub mod profiles;
pub mod protocol;
pub mod search;
pub mod text;
pub mod transfer;
pub mod ui;

pub use command::Command;
pub use config::Config;
pub use event::Event;
