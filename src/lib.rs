//! A two-hop HTTP forwarding relay: an ingress side that reads raw client
//! requests and a relay side that performs the outbound call, joined by a
//! base64 envelope.
pub mod bytes;
pub mod codec;
pub mod head;
pub mod headers;
pub mod ingress;
mod outside;
pub mod relay;
pub mod structs;
pub mod tunnel;
