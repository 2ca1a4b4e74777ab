//! The program-wide state: how many posts were made.
use crate::codec::{enc_u128, overwrite, parse_u128, read_u128, write_prefix, write_u128};
use crate::error::BlawgdError;
use crate::state::address::{hash_text, text_seed};
use vstd::prelude::*;

verus! {

/// The program-wide state.
#[derive(Clone, Copy, Debug)]
pub struct ProgramState {
    pub post_count: u128,
}

impl ProgramState {
    /// The stored layout of the state.
    pub fn try_to_vec(&self) -> (r: Result<Vec<u8>, BlawgdError>)
        ensures
            r matches Ok(v) && v@ == enc_u128(self.post_count),
    {
        let mut v: Vec<u8> = Vec::new();
        write_u128(&mut v, self.post_count);
        assert(v@ =~= enc_u128(self.post_count));
        Ok(v)
    }

    /// The bytes set aside for the state: 32, room for twice its stored
    /// layout (see [`law_state_fits_space`]).
    pub fn space() -> (r: Result<usize, BlawgdError>)
        ensures
            r == Ok::<usize, BlawgdError>(32),
    {
        Ok(32)
    }

    /// The seed of the state's account: the digest of `program_state`.
    pub fn seed() -> (s: Vec<u8>)
        ensures
            s@ == text_seed("program_state"@),
    {
        let s = String::from_str("program_state");
        hash_text(&s)
    }

    /// Reads the state kept at the front of an account's data.
    pub fn deserialize(data: &[u8]) -> (r: Result<ProgramState, BlawgdError>)
        ensures
            match parse_u128(data@) {
                None => r == Err::<ProgramState, BlawgdError>(BlawgdError::BorshIoError),
                Some((v, _)) => r == Ok::<ProgramState, BlawgdError>(ProgramState { post_count: v }),
            },
    {
        assert(data@.skip(0) =~= data@);
        match read_u128(data, 0) {
            None => Err(BlawgdError::BorshIoError),
            Some((v, _)) => Ok(ProgramState { post_count: v }),
        }
    }

    /// Writes the state over the front of an account's data.
    pub fn serialize(&self, data: &mut Vec<u8>) -> (r: Result<(), BlawgdError>)
        ensures
            r is Ok <==> 16 <= old(data)@.len(),
            r is Ok ==> final(data)@ == overwrite(old(data)@, enc_u128(self.post_count)),
            r is Err ==> r == Err::<(), BlawgdError>(BlawgdError::BorshIoError) && final(data)@
                == old(data)@,
    {
        let bytes = self.try_to_vec()?;
        proof {
            crate::codec::lemma_le_bytes_len(self.post_count as nat, 16);
        }
        if write_prefix(data, &bytes) {
            Ok(())
        } else {
            Err(BlawgdError::BorshIoError)
        }
    }
}

/// Every state's stored layout is 16 bytes long, so it fits the 32 bytes
/// set aside for it.
pub proof fn law_state_fits_space(post_count: u128)
    ensures
        enc_u128(post_count).len() == 16,
        enc_u128(post_count).len() <= 32,
{
    crate::codec::lemma_le_bytes_len(post_count as nat, 16);
}

} // verus!
