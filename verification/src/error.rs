//! The errors with which the program refuses an instruction.
use vstd::prelude::*;

verus! {

/// Why an instruction failed.
#[derive(PartialEq, Eq, Structural, Clone, Copy, Debug)]
pub enum BlawgdError {
    /// Fewer accounts were passed than the instruction reads.
    NotEnoughAccountKeys,
    /// An account that the instruction needs for its operation is missing.
    InvalidAccountData,
    /// Account data or instruction data could not be read, or state could
    /// not be written into an account (it does not fit).
    BorshIoError,
    /// A counter would pass its largest value.
    ArithmeticOverflow,
    /// The user has liked the post already.
    AlreadyLiked,
    /// The post commented on is a repost.
    CommentOnRepost,
}

} // verus!
