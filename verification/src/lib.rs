//! The rules of a small social blogging platform: the account state that an
//! on-chain program keeps (profiles, posts, follows, likes), the instructions
//! that change it, and the pure parts of the browser client that reads it
//! back (storage keys, paging, verification of Merkle proofs, rendering).
pub mod codec;
pub mod error;
pub mod text;
pub mod state;
pub mod instructions;
pub mod entrypoint;
pub mod laws;
pub mod client;
