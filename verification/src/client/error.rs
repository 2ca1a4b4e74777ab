//! Why a step of the client fails.
use vstd::prelude::*;

verus! {

/// Why a step of the client fails.
#[derive(PartialEq, Eq, Structural, Clone, Copy, Debug)]
pub enum ClientError {
    /// The page asked for lies past the end of the collection.
    PageTooHigh,
    /// A key asked for is not in the data fetched ahead.
    MissingPrefetchedKey,
    /// The answer holds no value for a key asked for.
    MissingData,
    /// The answer holds no proof for a key asked for.
    MissingProof,
    /// Stored bytes are not valid UTF-8.
    InvalidUtf8,
    /// A proof does not decode as a commitment proof.
    ProofUndecodable,
    /// There is no proof.
    EmptyProof,
    /// The root to check against is empty.
    EmptyRoot,
    /// The number of proofs is not that of the proof specs.
    ProofCountMismatch,
    /// The length of the key path is not that of the proof specs.
    PathLengthMismatch,
    /// The value to check is empty.
    EmptyValue,
    /// A proof holds no existence proof for its key.
    NoExistenceProof,
    /// The root of an existence proof could not be computed.
    RootNotComputed,
    /// A proof does not show the value under its key.
    ProofRejected,
    /// The root reached is not the one given.
    RootMismatch,
    /// A URL does not start with the client's address.
    UnknownUrl,
    /// An answer holds two entries under one key.
    DuplicateKey,
    /// No user is logged in.
    NotLoggedIn,
    /// An amount to send is not a whole number of coins.
    InvalidAmount,
}

} // verus!
