//! Subscriber registry and broadcast engine of a desktop-session daemon that
//! pushes window-manager state to local subscribers.
//!
//! - `topic`: the closed set of topics and their wire names and codes.
//! - `data`: the published facts and the payload sent for each topic.
//! - `registry`: who is subscribed to what, one connection per pid and topic.
//! - `state`: the facts and the registry, shared behind one lock.
//! - `handshake`: the decisions of the subscription handshake.
//! - `tick`: the decisions of a broadcast tick.
//! - `startup`: the decisions that free the socket path before the daemon binds.
//! - `laws`: properties of registration and eviction across calls.
//! - `text`, `workspaces`: reading the window manager's `workspaces` reply.

pub mod data;
pub mod handshake;
pub mod laws;
pub mod registry;
pub mod startup;
pub mod state;
pub mod text;
pub mod tick;
pub mod topic;
pub mod workspaces;
