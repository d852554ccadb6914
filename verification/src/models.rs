//! The messages exchanged between the nodes of the service.

use vstd::prelude::*;

verus! {

/// A security event seen in a node's log, on its way to the chat.
pub struct Alert {
    pub slave_alias: String,
    pub event_type: String,
    pub timestamp: String,
    pub log_line: String,
    pub server_ip: String,
    pub hostname: String,
}

/// A request that the master node sends to a slave node.
#[derive(Clone, Copy, Debug, PartialEq, Eq, Structural)]
pub enum Command {
    Health,
    Who,
    List,
}

/// A slave's answer to `Command::Health`.
pub struct HealthResponse {
    pub alias: String,
    pub status: String,
}

/// A slave's answer to `Command::Who`.
pub struct WhoResponse {
    pub alias: String,
    pub who_output: String,
}

/// A slave's answer to `Command::List`.
pub struct ListResponse {
    pub alias: String,
    pub hostname: String,
    pub ip: String,
    pub uptime: String,
}

} // verus!
