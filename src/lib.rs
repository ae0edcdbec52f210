//! A data plane for a data-sharing connector: it starts, suspends and ends
//! transfers on the control plane's signal, mints the access and refresh
//! tokens of each transfer, exchanges refresh tokens, publishes the key that
//! checks the tokens, and decides which requests to its data proxy go on and
//! where to.

use vstd::prelude::*;

pub mod claims;
pub mod config;
pub mod edr;
pub mod laws;
pub mod namespace;
pub mod proxy;
pub mod registration;
pub mod service;
pub mod signaling;
pub mod store;
mod text;
pub mod token;
pub mod transfer;

verus! {

} // verus!
