//! A mailbox-watching mail relay: watches one folder of a message store over a
//! persistent session, detects newly arrived messages by a strict increase of
//! the folder's message count, filters them by optional sender and subject
//! patterns, and forwards the matching ones to a list of recipients.
//!
//! The library holds the verified core: configuration, header parsing, the
//! filter engine, the idle-wait and watch/forward state machines, and the
//! per-recipient send batch. The surrounding binary drives the actual
//! network sessions and feeds their outcomes back into these state machines.

pub mod cli;
pub mod headers;
pub mod filter;
pub mod idle;
pub mod watch;
pub mod send;
