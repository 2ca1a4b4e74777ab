//! `UpdateFollowingList`: a user follows another user, or stops following
//! them, and both users' counters follow suit.
use crate::error::BlawgdError;
use crate::instructions::{
    after, create_pda, existing_or_new, next_account_info, pda, written, AccountInfo, Effect,
    Instruction, InstructionState, PdaCreation, UpdateFollowingListArgs,
};
use crate::state::account::{enc_user_account, parse_user_account, profile_fits, UserAccount, UserAccountData};
use crate::state::address::{base58, text_seed, Pubkey};
use crate::state::following::{enc_following, insert_key, parse_following, remove_key, UserFollowingList};
use vstd::prelude::*;

verus! {

/// The accounts of `UpdateFollowingList`, in the order it takes them.
#[derive(Debug)]
pub struct UpdateFollowingListAccounts {
    pub following_list: AccountInfo,
    pub signer_user_account: AccountInfo,
    pub to_follow_user_account: AccountInfo,
    pub system_program: AccountInfo,
    pub signer: AccountInfo,
}

/// An `UpdateFollowingList` instruction with its accounts.
#[derive(Debug)]
pub struct UpdateFollowingList {
    pub program_id: Pubkey,
    pub accounts: UpdateFollowingListAccounts,
    pub args: UpdateFollowingListArgs,
}

impl View for UpdateFollowingList {
    type V = InstructionState;

    open spec fn view(&self) -> InstructionState {
        InstructionState {
            program_id: self.program_id@,
            accounts: seq![
                self.accounts.following_list@,
                self.accounts.signer_user_account@,
                self.accounts.to_follow_user_account@,
                self.accounts.system_program@,
                self.accounts.signer@,
            ],
        }
    }
}

/// The following list kept in an account's data, or an empty one when the
/// data is still empty.
pub open spec fn following_or_empty(data: Seq<u8>) -> Option<Seq<Seq<u8>>> {
    if data.len() == 0 {
        Some(Seq::empty())
    } else {
        match parse_following(data) {
            None => None,
            Some((l, _)) => Some(l),
        }
    }
}

/// The seed of the following list of `user`.
pub open spec fn following_seed(user: Seq<u8>) -> Seq<u8> {
    text_seed("following-list-"@ + base58(user))
}

/// Whether the operation changes the list: following someone not yet
/// followed, or unfollowing someone followed.
pub open spec fn follow_changes(list: Seq<Seq<u8>>, user: Seq<u8>, add: bool) -> bool {
    if add {
        !list.contains(user)
    } else {
        list.contains(user)
    }
}

/// The list after the operation.
pub open spec fn followed_list(list: Seq<Seq<u8>>, user: Seq<u8>, add: bool) -> Seq<Seq<u8>> {
    if add {
        insert_key(list, user)
    } else {
        remove_key(list, user)
    }
}

/// A counter moved one up (following) or one down (unfollowing).
pub open spec fn stepped(n: u128, add: bool) -> u128 {
    if add {
        (n + 1) as u128
    } else {
        (n - 1) as u128
    }
}

/// Whether moving a counter would leave the range of `u128`.
pub open spec fn step_overflows(n: u128, add: bool) -> bool {
    if add {
        n == u128::MAX
    } else {
        n == 0
    }
}

/// What `UpdateFollowingList` does: reads the signer's following list
/// (asking for it, 1600 bytes, when it is still empty) and both users'
/// accounts; when the operation changes the list, moves the signer's
/// following count and the other user's follower count by one; writes all
/// three back.
#[verifier::opaque]
pub open spec fn update_following_list_effect(
    s: InstructionState,
    user: Seq<u8>,
    add: bool,
) -> Result<Effect, BlawgdError> {
    let list_acc = s.accounts[0];
    let signer_acc = s.accounts[1];
    let other_acc = s.accounts[2];
    let signer = s.accounts[4];
    let list_data = existing_or_new(list_acc.data, 1600);
    let created = if list_acc.data.len() == 0 {
        seq![pda(s.program_id, signer.key, list_acc.key, 1600, following_seed(signer.key))]
    } else {
        Seq::empty()
    };
    match following_or_empty(list_acc.data) {
        None => Err(BlawgdError::BorshIoError),
        Some(list) => match parse_user_account(signer_acc.data) {
            None => Err(BlawgdError::BorshIoError),
            Some((me, _)) => match parse_user_account(other_acc.data) {
                None => Err(BlawgdError::BorshIoError),
                Some((other, _)) => {
                    let changes = follow_changes(list, user, add);
                    if changes && (step_overflows(me.following_count, add) || step_overflows(
                        other.follower_count,
                        add,
                    )) {
                        Err(BlawgdError::ArithmeticOverflow)
                    } else {
                        let new_list = followed_list(list, user, add);
                        let new_me = if changes {
                            UserAccountData {
                                following_count: stepped(me.following_count, add),
                                ..me
                            }
                        } else {
                            me
                        };
                        let new_other = if changes {
                            UserAccountData {
                                follower_count: stepped(other.follower_count, add),
                                ..other
                            }
                        } else {
                            other
                        };
                        if new_list.len() > u32::MAX {
                            Err(BlawgdError::BorshIoError)
                        } else {
                            match written(list_data, enc_following(new_list)) {
                                None => Err(BlawgdError::BorshIoError),
                                Some(d0) => if !profile_fits(me.profile) {
                                    Err(BlawgdError::BorshIoError)
                                } else {
                                    match written(signer_acc.data, enc_user_account(new_me)) {
                                        None => Err(BlawgdError::BorshIoError),
                                        Some(d1) => if !profile_fits(other.profile) {
                                            Err(BlawgdError::BorshIoError)
                                        } else {
                                            match written(
                                                other_acc.data,
                                                enc_user_account(new_other),
                                            ) {
                                                None => Err(BlawgdError::BorshIoError),
                                                Some(d2) => Ok(
                                                    Effect {
                                                        data: seq![
                                                            d0,
                                                            d1,
                                                            d2,
                                                            s.accounts[3].data,
                                                            signer.data,
                                                        ],
                                                        created,
                                                    },
                                                ),
                                            }
                                        },
                                    }
                                },
                            }
                        }
                    }
                },
            },
        },
    }
}

impl UpdateFollowingList {
    /// Takes the following list, the two users' accounts, the system program
    /// and the signer off the front of `accounts`.
    pub fn new(
        program_id: Pubkey,
        accounts: Vec<AccountInfo>,
        args: UpdateFollowingListArgs,
    ) -> (r: Result<UpdateFollowingList, BlawgdError>)
        ensures
            accounts@.len() < 5 ==> r == Err::<UpdateFollowingList, BlawgdError>(
                BlawgdError::NotEnoughAccountKeys,
            ),
            accounts@.len() >= 5 ==> (r matches Ok(i) && i@ == (InstructionState {
                program_id: program_id@,
                accounts: accounts@.take(5).map_values(|a: AccountInfo| a@),
            }) && i.args == args),
    {
        let mut accounts = accounts;
        let ghost all = accounts@;
        let following_list = next_account_info(&mut accounts)?;
        let signer_user_account = next_account_info(&mut accounts)?;
        let to_follow_user_account = next_account_info(&mut accounts)?;
        let system_program = next_account_info(&mut accounts)?;
        let signer = next_account_info(&mut accounts)?;
        let i = UpdateFollowingList {
            program_id,
            accounts: UpdateFollowingListAccounts {
                following_list,
                signer_user_account,
                to_follow_user_account,
                system_program,
                signer,
            },
            args,
        };
        assert(i@.accounts =~= all.take(5).map_values(|a: AccountInfo| a@));
        Ok(i)
    }

    /// Nothing to check before the run.
    pub fn validate_instruction(&self) -> (r: Result<(), BlawgdError>)
        ensures
            r is Ok,
    {
        Ok(())
    }

    /// The run, which may leave partial writes behind when it fails.
    #[verifier::rlimit(60)]
    #[verifier::spinoff_prover]
    fn run(&mut self) -> (r: Result<Vec<PdaCreation>, BlawgdError>)
        ensures
            final(self).program_id == old(self).program_id,
            final(self).accounts.following_list.key == old(self).accounts.following_list.key,
            final(self).accounts.signer_user_account.key == old(self).accounts.signer_user_account.key,
            final(self).accounts.to_follow_user_account.key == old(self).accounts.to_follow_user_account.key,
            final(self).accounts.system_program.key == old(self).accounts.system_program.key,
            final(self).accounts.signer.key == old(self).accounts.signer.key,
            final(self).args == old(self).args,
            match update_following_list_effect(
                old(self)@,
                old(self).args.user@,
                old(self).args.add_operation,
            ) {
                Err(e) => r == Err::<Vec<PdaCreation>, BlawgdError>(e),
                Ok(eff) => r matches Ok(c) && crate::instructions::creations_view(c@)
                    == eff.created && final(self)@ == after(old(self)@, eff),
            },
    {
        let ghost s = self@;
        proof {
            reveal(update_following_list_effect);
        }
        let mut created: Vec<PdaCreation> = Vec::new();
        assert(crate::instructions::creations_view(created@) =~= Seq::empty());
        let mut list = if self.accounts.following_list.data.len() > 0 {
            UserFollowingList::deserialize(self.accounts.following_list.data.as_slice())?
        } else {
            let space = UserFollowingList::space()?;
            let seed = UserFollowingList::seed(self.accounts.signer.key);
            create_pda(
                &self.program_id,
                space,
                &self.accounts.signer,
                &mut self.accounts.following_list,
                seed,
                &mut created,
            );
            UserFollowingList::default()
        };
        let mut me = UserAccount::deserialize(self.accounts.signer_user_account.data.as_slice())?;
        let mut other = UserAccount::deserialize(
            self.accounts.to_follow_user_account.data.as_slice(),
        )?;
        if self.args.add_operation {
            if list.insert(self.args.user) {
                if me.following_count == u128::MAX || other.follower_count == u128::MAX {
                    return Err(BlawgdError::ArithmeticOverflow);
                }
                me.following_count = me.following_count + 1;
                other.follower_count = other.follower_count + 1;
            }
        } else if list.remove(&self.args.user) {
            if me.following_count == 0 || other.follower_count == 0 {
                return Err(BlawgdError::ArithmeticOverflow);
            }
            me.following_count = me.following_count - 1;
            other.follower_count = other.follower_count - 1;
        }
        list.serialize(&mut self.accounts.following_list.data)?;
        me.serialize(&mut self.accounts.signer_user_account.data)?;
        other.serialize(&mut self.accounts.to_follow_user_account.data)?;
        proof {
            let eff = update_following_list_effect(
                s,
                self.args.user@,
                self.args.add_operation,
            ).unwrap();
            assert(crate::instructions::creations_view(created@) =~= eff.created);
            assert(self@.accounts =~= after(s, eff).accounts);
        }
        Ok(created)
    }

    /// Follows or unfollows; see [`update_following_list_effect`].
    pub fn execute_instruction(&mut self) -> (r: Result<Vec<PdaCreation>, BlawgdError>)
        ensures
            final(self).args == old(self).args,
            match update_following_list_effect(
                old(self)@,
                old(self).args.user@,
                old(self).args.add_operation,
            ) {
                Err(e) => r == Err::<Vec<PdaCreation>, BlawgdError>(e) && final(self)@ == old(self)@,
                Ok(eff) => r matches Ok(c) && crate::instructions::creations_view(c@)
                    == eff.created && final(self)@ == after(old(self)@, eff),
            },
    {
        let ghost s = self@;
        let saved0 = crate::codec::copy_bytes(self.accounts.following_list.data.as_slice());
        let saved1 = crate::codec::copy_bytes(self.accounts.signer_user_account.data.as_slice());
        let saved2 = crate::codec::copy_bytes(self.accounts.to_follow_user_account.data.as_slice());
        let saved3 = crate::codec::copy_bytes(self.accounts.system_program.data.as_slice());
        let saved4 = crate::codec::copy_bytes(self.accounts.signer.data.as_slice());
        match self.run() {
            Ok(c) => Ok(c),
            Err(e) => {
                crate::instructions::restore(&mut self.accounts.following_list, saved0);
                crate::instructions::restore(&mut self.accounts.signer_user_account, saved1);
                crate::instructions::restore(&mut self.accounts.to_follow_user_account, saved2);
                crate::instructions::restore(&mut self.accounts.system_program, saved3);
                crate::instructions::restore(&mut self.accounts.signer, saved4);
                assert(self@.accounts =~= s.accounts);
                Err(e)
            },
        }
    }

    /// The accounts, in the order the instruction took them.
    pub fn into_accounts(self) -> (v: Vec<AccountInfo>)
        ensures
            v@.map_values(|a: AccountInfo| a@) == self@.accounts,
    {
        let UpdateFollowingList { program_id: _, accounts, args: _ } = self;
        let v = vec![
            accounts.following_list,
            accounts.signer_user_account,
            accounts.to_follow_user_account,
            accounts.system_program,
            accounts.signer,
        ];
        assert(v@.map_values(|a: AccountInfo| a@) =~= self@.accounts);
        v
    }
}

impl Instruction for UpdateFollowingList {
    fn validate(&self) -> (r: Result<(), BlawgdError>)
        ensures
            r is Ok,
    {
        self.validate_instruction()
    }

    fn execute(&mut self) -> (r: Result<Vec<PdaCreation>, BlawgdError>)
        ensures
            final(self).args == old(self).args,
            match update_following_list_effect(
                old(self)@,
                old(self).args.user@,
                old(self).args.add_operation,
            ) {
                Err(e) => r == Err::<Vec<PdaCreation>, BlawgdError>(e) && final(self)@ == old(self)@,
                Ok(eff) => r matches Ok(c) && crate::instructions::creations_view(c@)
                    == eff.created && final(self)@ == after(old(self)@, eff),
            },
    {
        self.execute_instruction()
    }
}

} // verus!
