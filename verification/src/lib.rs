//! A discovery registry for agents identified by decentralized identifiers.
//!
//! An agent proves control of its DID in a challenge-response handshake,
//! receives a short-lived session, and uses it to publish the endpoint at
//! which it can be reached. Anyone may resolve a DID to its live endpoint.
//!
//! The service:
//! - [`messages`] and [`canonical`]: the messages of the handshake and the
//!   canonical text by which they are signed and hashed;
//! - [`handshake`]: issuing challenges and judging proofs;
//! - [`session`] and [`registry`], over [`table`]: sessions and registrations;
//! - [`handlers`], [`types`] and [`error`]: what each request does and answers;
//! - [`client`] and [`mcp`]: the caller's side.
//!
//! Advertising an agent on relays: [`service_card`], [`heartbeat`],
//! [`discovery`] and [`cli`].
//!
//! What other crates compute is called in [`crypto`], [`clock`], [`urls`],
//! [`identity`] and [`discovery`], one function per call, each with what is
//! assumed of it.

pub mod canonical;
pub mod cli;
pub mod client;
pub mod clock;
pub mod crypto;
pub mod discovery;
pub mod error;
pub mod handlers;
pub mod handshake;
pub mod heartbeat;
pub mod identity;
pub mod mcp;
pub mod messages;
pub mod registry;
pub mod service_card;
pub mod session;
pub mod table;
pub mod types;
pub mod urls;
