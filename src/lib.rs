//! A status reporter that watches one mailbox and renders its unread count
//! for a desktop status bar. The library holds the reconnect backoff, the
//! credential parsers, the status renderer and the session state machine;
//! the network, the terminal and the clock are driven from outside.

pub mod backoff;
pub mod creds;
pub mod status;
pub mod text;
pub mod watcher;
