//! A command line dictionary: resolves a word into a dictionary entry,
//! preferring the local cache over the network, with spoken pronunciation
//! and spelling suggestions for words that have no entry.

pub mod cli;
pub mod text;
pub mod query;
pub mod entry;
pub mod render;
pub mod acquire;
pub mod speech;
pub mod suggestion;
