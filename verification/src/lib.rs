//! A ledger-resident access-control and record-lifecycle engine for a
//! decentralized code-hosting registry.
//!
//! The registry keeps three record kinds — repositories, collaborator
//! grants, and stars — each living at an address derived deterministically
//! from its identifying fields. Authorization is re-derivation: every
//! operation recomputes the address a caller claims to act on and treats
//! any mismatch as unauthorized. The operations themselves (create, push,
//! grant, star, transfer, delete) are verified: each one's contract pins
//! the exact outcome, success and failure alike, for every input.

pub mod addressing;
pub mod errors;
pub mod events;
pub mod records;
pub mod registry;
pub mod laws;
