//! Two loopback services of a desktop host, and the rules around them.
//!
//! * The reverse proxy forwards any HTTP request to the upstream address
//!   named in the request, with secrets filled into the address and the
//!   headers: [`template`] holds the substitution, [`secrets`] the mapping
//!   it reads, [`proxy`] the request pipeline.
//! * The relay hub lets remote windows exchange JSON messages with the
//!   host over WebSocket: [`relay`] holds what a connection does with each
//!   event and how the host sends to a peer, [`registry`] the peers,
//!   [`json`] the documents, [`bootstrap`] the script that connects a
//!   window to the hub.
//! * [`backup`] and [`scripts`] hold the rules that the host's file and
//!   process commands follow.
//!
//! The library does no I/O. The host reads, listens and sends, and hands
//! the library plain values.

pub mod backup;
pub mod bootstrap;
pub mod json;
pub mod proxy;
pub mod registry;
pub mod relay;
pub mod scripts;
pub mod secrets;
pub mod template;
pub mod text;
