//! Batch delivery for a consensus replica: converts finalized blocks into
//! canonical execution batches delivered in strict height order, and
//! synthesizes protocol-level responses to subnet calls (initial DKG setup,
//! completed threshold signatures, canister-http outcomes).

pub mod batch_delivery;
pub mod chain;
pub mod consensus_sink;
pub mod crypto;
pub mod dkg;
pub mod ecdsa;
pub mod http;
pub mod ingress;
pub mod messaging;
pub mod modular_chain;
pub mod types;
pub mod wire;
