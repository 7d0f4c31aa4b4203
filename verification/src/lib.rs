//! Verified core of the Steel server's IP access control: ban, shadowban and
//! whitelist bookkeeping, command argument parsing, command decisions, block
//! placement rules and the byte reader used by the protocol codec.

pub mod net;
pub mod key_set;
pub mod time;
pub mod text;
pub mod snbt;
pub mod ban_list;
pub mod ip_access_policy;
pub mod ban;
pub mod arguments;
pub mod serial;
pub mod commands;
pub mod blocks;
pub mod cli;
