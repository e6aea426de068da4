//! Engine of a dynamic-DNS client: it works out which addresses this host can be
//! reached at and brings the address records of a DNS zone in line with them.
//!
//! The crate holds the decisions only. Whatever touches the network, the
//! operating system or the disk is done by the caller, which hands the outcome
//! in as plain values and carries out the requests that the engine hands back.
//!
//! A run goes through [`run::Run::step`]: the network gate of [`gate`], the
//! discovery of [`discover`] with the readers of [`inspect`] and [`resolve`], and
//! one reconciliation of [`sync`] for each address found.

pub mod address;
pub mod text;
pub mod literal;
pub mod record;
pub mod config;
pub mod gate;
pub mod inspect;
pub mod resolve;
pub mod discover;
pub mod sync;
pub mod run;
