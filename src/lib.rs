//! The host side of an OSC multiplexer: the rules by which a single UDP
//! stream is shared between an upstream application and in-process plugins.
//! Sockets, files and shared libraries stay with the caller; what is decided
//! about them is here, with its contracts.
use vstd::prelude::*;

pub mod addr;
pub mod chat;
pub mod config;
pub mod plugin;
pub mod router;
pub mod text;
pub mod version;
pub mod wizard;

verus! {

} // verus!
