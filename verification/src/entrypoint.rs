//! The program's entry point: reads the instruction from its data, takes
//! its accounts, checks it and runs it.
use crate::error::BlawgdError;
use crate::instructions::create_post::{create_post_effect, CreatePost};
use crate::instructions::instantiate::{instantiate_effect, Instantiate};
use crate::instructions::like_post::{like_post_effect, LikePost};
use crate::instructions::update_following_list::{
    update_following_list_effect, UpdateFollowingList,
};
use crate::instructions::update_profile::{update_profile_effect, UpdateProfile};
use crate::instructions::{
    accounts_view, after, creations_view, parse_instruction, AccountData, AccountInfo,
    BlawgdInstruction, Effect, InstructionData, InstructionState, PdaCreation, PdaCreationData,
};
use crate::state::address::Pubkey;
use vstd::prelude::*;

verus! {

/// The accounts and requests that an effect on `s` leaves, or its error.
pub open spec fn outcome(s: InstructionState, r: Result<Effect, BlawgdError>) -> Result<
    (Seq<AccountData>, Seq<PdaCreationData>),
    BlawgdError,
> {
    match r {
        Err(e) => Err(e),
        Ok(eff) => Ok((after(s, eff).accounts, eff.created)),
    }
}

/// What an instruction that takes `n` accounts works on.
pub open spec fn taken(program_id: Seq<u8>, accounts: Seq<AccountData>, n: int) -> InstructionState {
    InstructionState { program_id, accounts: accounts.take(n) }
}

/// How many accounts `CreatePost` takes out of `len`: six, and up to three
/// more when they are there.
pub open spec fn create_post_taken(len: int) -> int {
    if len < 9 {
        len
    } else {
        9
    }
}

/// What running the instruction in `data` on `accounts` gives: the
/// accounts that the instruction took, with their new data, and the
/// accounts to create; or the error. Data that is not an instruction fails
/// with `BorshIoError`; too few accounts with `NotEnoughAccountKeys`.
pub open spec fn process_effect(
    program_id: Seq<u8>,
    accounts: Seq<AccountData>,
    data: Seq<u8>,
) -> Result<(Seq<AccountData>, Seq<PdaCreationData>), BlawgdError> {
    match parse_instruction(data) {
        None => Err(BlawgdError::BorshIoError),
        Some(ins) => match ins {
            InstructionData::Instantiate => if accounts.len() < 3 {
                Err(BlawgdError::NotEnoughAccountKeys)
            } else {
                let s = taken(program_id, accounts, 3);
                outcome(s, instantiate_effect(s))
            },
            InstructionData::UpdateProfile { profile } => if accounts.len() < 3 {
                Err(BlawgdError::NotEnoughAccountKeys)
            } else {
                let s = taken(program_id, accounts, 3);
                outcome(s, update_profile_effect(s, profile))
            },
            InstructionData::CreatePost { parent_post, is_repost, content } => if accounts.len()
                < 6 {
                Err(BlawgdError::NotEnoughAccountKeys)
            } else {
                let s = taken(program_id, accounts, create_post_taken(accounts.len() as int));
                outcome(s, create_post_effect(s, parent_post, is_repost, content))
            },
            InstructionData::UpdateFollowingList { user, add_operation } => if accounts.len()
                < 5 {
                Err(BlawgdError::NotEnoughAccountKeys)
            } else {
                let s = taken(program_id, accounts, 5);
                outcome(s, update_following_list_effect(s, user, add_operation))
            },
            InstructionData::LikePost => if accounts.len() < 4 {
                Err(BlawgdError::NotEnoughAccountKeys)
            } else {
                let s = taken(program_id, accounts, 4);
                outcome(s, like_post_effect(s))
            },
        },
    }
}

/// Runs the instruction in `args` on `accounts`; see [`process_effect`].
/// Gives back the accounts that the instruction took, in order, with their
/// new data, and the accounts that the runtime is to create.
pub fn process_instruction(program_id: &Pubkey, accounts: Vec<AccountInfo>, args: &[u8]) -> (r:
    Result<(Vec<AccountInfo>, Vec<PdaCreation>), BlawgdError>)
    ensures
        match process_effect(program_id@, accounts_view(accounts@), args@) {
            Err(e) => r == Err::<(Vec<AccountInfo>, Vec<PdaCreation>), BlawgdError>(e),
            Ok((accs, created)) => r matches Ok((v, c)) && accounts_view(v@) == accs
                && creations_view(c@) == created,
        },
{
    let ghost all = accounts_view(accounts@);
    let instruction = BlawgdInstruction::try_from_slice(args)?;
    match instruction {
        BlawgdInstruction::Instantiate(a) => {
            proof {
                if all.len() >= 3 {
                    assert(all.take(3) =~= accounts@.take(3).map_values(|a: AccountInfo| a@));
                }
            }
            let mut i = Instantiate::new(*program_id, accounts, a)?;
            i.validate_instruction()?;
            let created = i.execute_instruction()?;
            let v = i.into_accounts();
            proof {
                assert(accounts_view(v@) =~= v@.map_values(|a: AccountInfo| a@));
            }
            Ok((v, created))
        },
        BlawgdInstruction::UpdateProfile(a) => {
            proof {
                if all.len() >= 3 {
                    assert(all.take(3) =~= accounts@.take(3).map_values(|a: AccountInfo| a@));
                }
            }
            let mut i = UpdateProfile::new(*program_id, accounts, a)?;
            i.validate_instruction()?;
            let created = i.execute_instruction()?;
            let v = i.into_accounts();
            proof {
                assert(accounts_view(v@) =~= v@.map_values(|a: AccountInfo| a@));
            }
            Ok((v, created))
        },
        BlawgdInstruction::CreatePost(a) => {
            let ghost k = create_post_taken(all.len() as int);
            proof {
                if all.len() >= 6 {
                    assert(all.take(k) =~= accounts@.take(k).map_values(|a: AccountInfo| a@));
                }
            }
            let mut i = CreatePost::new(*program_id, accounts, a)?;
            i.validate_instruction()?;
            let created = i.execute_instruction()?;
            let v = i.into_accounts();
            proof {
                assert(accounts_view(v@) =~= v@.map_values(|a: AccountInfo| a@));
            }
            Ok((v, created))
        },
        BlawgdInstruction::UpdateFollowingList(a) => {
            proof {
                if all.len() >= 5 {
                    assert(all.take(5) =~= accounts@.take(5).map_values(|a: AccountInfo| a@));
                }
            }
            let mut i = UpdateFollowingList::new(*program_id, accounts, a)?;
            i.validate_instruction()?;
            let created = i.execute_instruction()?;
            let v = i.into_accounts();
            proof {
                assert(accounts_view(v@) =~= v@.map_values(|a: AccountInfo| a@));
            }
            Ok((v, created))
        },
        BlawgdInstruction::LikePost(a) => {
            proof {
                if all.len() >= 4 {
                    assert(all.take(4) =~= accounts@.take(4).map_values(|a: AccountInfo| a@));
                }
            }
            let mut i = LikePost::new(*program_id, accounts, a)?;
            i.validate_instruction()?;
            let created = i.execute_instruction()?;
            let v = i.into_accounts();
            proof {
                assert(accounts_view(v@) =~= v@.map_values(|a: AccountInfo| a@));
            }
            Ok((v, created))
        },
    }
}

} // verus!
