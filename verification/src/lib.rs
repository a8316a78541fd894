//! Coordination core for sharing one long-lived microVM server among many
//! independent command invocations: leader election through an advisory lock
//! file that doubles as a published rendezvous port, a line-delimited JSON
//! launch-request protocol, and the pure logic behind the interactive relay
//! bridge and the bounded retry policy.

pub mod errors;
pub mod escape;
pub mod fsio;
pub mod lockfile;
pub mod numeric;
pub mod policy;
pub mod protocol;
pub mod relay;
pub mod strutil;
