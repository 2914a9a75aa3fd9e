//! Chaum-Pedersen zero-knowledge authentication.
//!
//! A user registers two public commitments to a secret exponent and later
//! proves knowledge of that exponent by answering a one-time random
//! challenge, without the secret ever leaving the prover.
//!
//! - [`bignum`], [`modular`] and [`zkp_utils`]: integers of any size,
//!   modular powers, random sampling and identity keys.
//! - [`parameters`]: the group that both parties compute in.
//! - [`encoding`] and [`messages`]: integers as base-16 text, and the
//!   messages that carry them.
//! - [`protocol`]: the protocol as mathematics.
//! - [`identity`] and [`server`]: the verifier's state and its three operations.
//! - [`client`]: the prover.
//! - [`laws`]: completeness, soundness against a wrong secret, single use
//!   of challenges and the other guarantees, proved.

pub mod bignum;
pub mod client;
pub mod encoding;
pub mod identity;
pub mod laws;
pub mod messages;
pub mod modular;
pub mod parameters;
pub mod protocol;
pub mod server;
pub mod zkp_utils;
