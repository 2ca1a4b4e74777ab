//! `UpdateProfile`: a user sets the profile kept in their account, making
//! the account on first use.
use crate::error::BlawgdError;
use crate::instructions::{
    after, create_pda, existing_or_new, next_account_info, pda, written, AccountInfo, Effect,
    Instruction, InstructionState, PdaCreation, UpdateProfileArgs,
};
use crate::state::account::{
    default_user_account, enc_user_account, parse_user_account, profile_fits, ProfileData,
    UserAccount, UserAccountData,
};
use crate::state::address::{base58, text_seed, Pubkey};
use vstd::prelude::*;

verus! {

/// The accounts of `UpdateProfile`, in the order it takes them.
#[derive(Debug)]
pub struct UpdateProfileAccounts {
    pub account_state: AccountInfo,
    pub system_program: AccountInfo,
    pub signer: AccountInfo,
}

/// An `UpdateProfile` instruction with its accounts.
#[derive(Debug)]
pub struct UpdateProfile {
    pub program_id: Pubkey,
    pub accounts: UpdateProfileAccounts,
    pub args: UpdateProfileArgs,
}

impl View for UpdateProfile {
    type V = InstructionState;

    open spec fn view(&self) -> InstructionState {
        InstructionState {
            program_id: self.program_id@,
            accounts: seq![
                self.accounts.account_state@,
                self.accounts.system_program@,
                self.accounts.signer@,
            ],
        }
    }
}

/// The account kept in an account's data, or the starting account when the
/// data is still empty.
pub open spec fn user_account_or_default(data: Seq<u8>) -> Option<UserAccountData> {
    if data.len() == 0 {
        Some(default_user_account())
    } else {
        match parse_user_account(data) {
            None => None,
            Some((a, _)) => Some(a),
        }
    }
}

/// The seed of the account of `user`.
pub open spec fn user_account_seed(user: Seq<u8>) -> Seq<u8> {
    text_seed("account-"@ + base58(user))
}

/// What `UpdateProfile` does: reads the signer's account (asking for it,
/// 632 bytes, when it is still empty), replaces its profile by `profile`,
/// keeping the counters, and writes it back.
#[verifier::opaque]
pub open spec fn update_profile_effect(s: InstructionState, profile: ProfileData) -> Result<
    Effect,
    BlawgdError,
> {
    let acc = s.accounts[0];
    let signer = s.accounts[2];
    let data = existing_or_new(acc.data, 632);
    let created = if acc.data.len() == 0 {
        seq![pda(s.program_id, signer.key, acc.key, 632, user_account_seed(signer.key))]
    } else {
        Seq::empty()
    };
    match user_account_or_default(acc.data) {
        None => Err(BlawgdError::BorshIoError),
        Some(a) => {
            let updated = UserAccountData { profile, ..a };
            if !profile_fits(profile) {
                Err(BlawgdError::BorshIoError)
            } else {
                match written(data, enc_user_account(updated)) {
                    None => Err(BlawgdError::BorshIoError),
                    Some(d) => Ok(
                        Effect { data: seq![d, s.accounts[1].data, signer.data], created },
                    ),
                }
            }
        },
    }
}

impl UpdateProfile {
    /// Takes the signer's account, the system program and the signer off
    /// the front of `accounts`.
    pub fn new(program_id: Pubkey, accounts: Vec<AccountInfo>, args: UpdateProfileArgs) -> (r:
        Result<UpdateProfile, BlawgdError>)
        ensures
            accounts@.len() < 3 ==> r == Err::<UpdateProfile, BlawgdError>(
                BlawgdError::NotEnoughAccountKeys,
            ),
            accounts@.len() >= 3 ==> (r matches Ok(i) && i@ == (InstructionState {
                program_id: program_id@,
                accounts: accounts@.take(3).map_values(|a: AccountInfo| a@),
            }) && i.args.profile@ == args.profile@),
    {
        let mut accounts = accounts;
        let ghost all = accounts@;
        let account_state = next_account_info(&mut accounts)?;
        let system_program = next_account_info(&mut accounts)?;
        let signer = next_account_info(&mut accounts)?;
        let i = UpdateProfile {
            program_id,
            accounts: UpdateProfileAccounts { account_state, system_program, signer },
            args,
        };
        assert(i@.accounts =~= all.take(3).map_values(|a: AccountInfo| a@));
        Ok(i)
    }

    /// Nothing to check before the run.
    pub fn validate_instruction(&self) -> (r: Result<(), BlawgdError>)
        ensures
            r is Ok,
    {
        Ok(())
    }

    /// The run, which may leave partial writes behind when it fails.
    #[verifier::rlimit(60)]
    #[verifier::spinoff_prover]
    fn run(&mut self) -> (r: Result<Vec<PdaCreation>, BlawgdError>)
        ensures
            final(self).program_id == old(self).program_id,
            final(self).accounts.account_state.key == old(self).accounts.account_state.key,
            final(self).accounts.system_program.key == old(self).accounts.system_program.key,
            final(self).accounts.signer.key == old(self).accounts.signer.key,
            final(self).args.profile@ == old(self).args.profile@,
            match update_profile_effect(old(self)@, old(self).args.profile@) {
                Err(e) => r == Err::<Vec<PdaCreation>, BlawgdError>(e),
                Ok(eff) => r matches Ok(c) && crate::instructions::creations_view(c@)
                    == eff.created && final(self)@ == after(old(self)@, eff),
            },
    {
        let ghost s = self@;
        proof {
            reveal(update_profile_effect);
        }
        let mut created: Vec<PdaCreation> = Vec::new();
        assert(crate::instructions::creations_view(created@) =~= Seq::empty());
        let mut account = if self.accounts.account_state.data.len() > 0 {
            UserAccount::deserialize(self.accounts.account_state.data.as_slice())?
        } else {
            let space = UserAccount::space()?;
            let seed = UserAccount::seed(self.accounts.signer.key);
            create_pda(
                &self.program_id,
                space,
                &self.accounts.signer,
                &mut self.accounts.account_state,
                seed,
                &mut created,
            );
            UserAccount::default()
        };
        account.profile = self.args.profile.clone();
        account.serialize(&mut self.accounts.account_state.data)?;
        proof {
            let eff = update_profile_effect(s, self.args.profile@).unwrap();
            assert(crate::instructions::creations_view(created@) =~= eff.created);
            assert(self@.accounts =~= after(s, eff).accounts);
        }
        Ok(created)
    }

    /// Sets the profile; see [`update_profile_effect`].
    pub fn execute_instruction(&mut self) -> (r: Result<Vec<PdaCreation>, BlawgdError>)
        ensures
            final(self).args.profile@ == old(self).args.profile@,
            match update_profile_effect(old(self)@, old(self).args.profile@) {
                Err(e) => r == Err::<Vec<PdaCreation>, BlawgdError>(e) && final(self)@ == old(self)@,
                Ok(eff) => r matches Ok(c) && crate::instructions::creations_view(c@)
                    == eff.created && final(self)@ == after(old(self)@, eff),
            },
    {
        let ghost s = self@;
        let saved0 = crate::codec::copy_bytes(self.accounts.account_state.data.as_slice());
        let saved1 = crate::codec::copy_bytes(self.accounts.system_program.data.as_slice());
        let saved2 = crate::codec::copy_bytes(self.accounts.signer.data.as_slice());
        match self.run() {
            Ok(c) => Ok(c),
            Err(e) => {
                crate::instructions::restore(&mut self.accounts.account_state, saved0);
                crate::instructions::restore(&mut self.accounts.system_program, saved1);
                crate::instructions::restore(&mut self.accounts.signer, saved2);
                assert(self@.accounts =~= s.accounts);
                Err(e)
            },
        }
    }

    /// The accounts, in the order the instruction took them.
    pub fn into_accounts(self) -> (v: Vec<AccountInfo>)
        ensures
            v@.map_values(|a: AccountInfo| a@) == self@.accounts,
    {
        let UpdateProfile { program_id: _, accounts, args: _ } = self;
        let v = vec![accounts.account_state, accounts.system_program, accounts.signer];
        assert(v@.map_values(|a: AccountInfo| a@) =~= self@.accounts);
        v
    }
}

impl Instruction for UpdateProfile {
    fn validate(&self) -> (r: Result<(), BlawgdError>)
        ensures
            r is Ok,
    {
        self.validate_instruction()
    }

    fn execute(&mut self) -> (r: Result<Vec<PdaCreation>, BlawgdError>)
        ensures
            final(self).args.profile@ == old(self).args.profile@,
            match update_profile_effect(old(self)@, old(self).args.profile@) {
                Err(e) => r == Err::<Vec<PdaCreation>, BlawgdError>(e) && final(self)@ == old(self)@,
                Ok(eff) => r matches Ok(c) && crate::instructions::creations_view(c@)
                    == eff.created && final(self)@ == after(old(self)@, eff),
            },
    {
        self.execute_instruction()
    }
}

} // verus!
