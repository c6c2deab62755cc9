//! Request handling for a self-hosted Turborepo remote cache that runs as a
//! Cloudflare Worker: the rules that decide, for each request, what is read
//! from or written to the artifact bucket and which status is answered.
//!
//! The worker runtime (routing, R2, Analytics Engine, secrets, logging) lives
//! outside this crate; it hands plain values in and acts on plain values out.

pub mod status;
pub mod text;
pub mod fields;
pub mod artifacts;
pub mod events;
pub mod auth;
pub mod responses;
