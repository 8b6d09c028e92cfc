//! agentbus: envelopes, mailboxes, the instance registry, ask/reply routing,
//! and the decision logic of the spool store, with their contracts.

pub mod text;
pub mod keyed;
pub mod order;
pub mod lines;
pub mod envelope;
pub mod ids;
pub mod mailbox;
pub mod registry;
pub mod router;
pub mod eventlog;
pub mod store;
pub mod instructions;
pub mod service;
pub mod cli;
pub mod daemon;
pub mod tools;
pub mod client;
