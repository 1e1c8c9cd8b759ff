//! Tracks the IPv4 address bound to a named (or name-prefixed) network
//! interface: a label matcher shared by a one-shot resolution pass and a
//! continuous change monitor, wired together by an orchestrator state
//! machine that guarantees the sink sees an initial state before any
//! change notification.

pub mod addr;
pub mod matcher;
pub mod monitor;
pub mod orchestrator;
pub mod pattern;
pub mod resolver;
