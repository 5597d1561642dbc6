//! A YubiKey agent for age: a daemon that keeps a PIN-verified session with a YubiKey, an age
//! plugin that asks it for ECDH, and the conversion of identity files.
pub mod attempt;
pub mod batch;
pub mod cli;
pub mod convert_identities;
pub mod crypto;
pub mod daemon;
pub mod daemon_laws;
pub mod encoding;
pub mod keys;
pub mod lines;
pub mod plugin;
pub mod protocol;
pub mod rewrite;
pub mod socket;
pub mod stanza;
pub mod text;
pub mod worker_loop;
