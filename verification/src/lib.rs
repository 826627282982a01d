//! A verified trust-chain client for an apt-style package repository.
//!
//! The library establishes a chain of trust from a PGP-signed release
//! manifest down to an individual binary artifact: the manifest's signature
//! is checked first, the package index is checked against the digest the
//! signed manifest declares for it, and the downloaded artifact is checked
//! against the digest recorded in the verified index.  Every gate is modelled
//! and proved here; the unverifiable outside work (network fetches, the PGP
//! primitive, temporary staging) is driven by the caller through the state
//! machine in [`client`].

pub mod client;
pub mod digest;
pub mod errors;
pub mod index;
pub mod manifest;
pub mod text;
