//! A credential-hiding reverse-proxy core.
//!
//! The crate models the heart of an HTTP forwarding proxy: a read-only
//! [`registry::Registry`] of configured upstream services, each with an
//! optional secret key, and the logic that turns a caller's logical request
//! into the physical request actually sent upstream.  The secret is delivered
//! either as an extra header or by substituting a placeholder inside the
//! request URI; callers never see it, and the listing endpoint returns only
//! sanitized entries.
//!
//! The crate itself performs no I/O: it prepares outgoing requests and maps
//! transport outcomes back to response envelopes, so a thin host layer can do
//! the actual HTTP calls.

pub mod proxy;
pub mod registry;
pub mod text;
