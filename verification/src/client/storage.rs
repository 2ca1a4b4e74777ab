//! What the client keeps in local storage, and what it does to it when the
//! stored data comes from another version of the client.
use vstd::prelude::*;

verus! {

/// The version of the stored data that this client writes.
pub const VERSION: u64 = 1;

/// The account that the client acts for: the wallet's mnemonic and its
/// address.
#[derive(Debug)]
pub struct ApplicationData {
    pub mnemonic: String,
    pub address: String,
}

impl Clone for ApplicationData {
    fn clone(&self) -> (a: Self)
        ensures
            a.mnemonic@ == self.mnemonic@,
            a.address@ == self.address@,
    {
        ApplicationData { mnemonic: self.mnemonic.clone(), address: self.address.clone() }
    }
}

/// What to do to local storage at start.
#[derive(PartialEq, Eq, Structural, Clone, Copy, Debug)]
pub enum ResetAction {
    /// The stored data is of this version: leave it.
    Keep,
    /// Clear local storage, then store this version.
    PurgeAndStore(u64),
}

/// What to do to local storage at start, given the version it was written
/// by (0 when none is stored): keep data of this version, else clear it all
/// and record this version.
pub fn reset_on_update(current_version: u64) -> (a: ResetAction)
    ensures
        current_version == VERSION ==> a == ResetAction::Keep,
        current_version != VERSION ==> a == ResetAction::PurgeAndStore(VERSION),
{
    if current_version == VERSION {
        return ResetAction::Keep;
    }
    ResetAction::PurgeAndStore(VERSION)
}

} // verus!
