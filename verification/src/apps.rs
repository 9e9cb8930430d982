//! What runs on top of the drivers: the shell and the network responder.

pub mod net;
pub mod shell;
