//! `Instantiate`: makes the program-wide state, with no posts yet.
use crate::codec::enc_u128;
use crate::error::BlawgdError;
use crate::instructions::{
    after, create_pda, next_account_info, pda, written, zeros, AccountInfo, Effect, Instruction,
    InstantiateArgs, InstructionState, PdaCreation,
};
use crate::state::address::{text_seed, Pubkey};
use crate::state::program_state::ProgramState;
use vstd::prelude::*;

verus! {

/// The accounts of `Instantiate`, in the order it takes them.
#[derive(Debug)]
pub struct InstantiateAccounts {
    pub program_state: AccountInfo,
    pub system_program: AccountInfo,
    pub creator: AccountInfo,
}

/// An `Instantiate` instruction with its accounts.
#[derive(Debug)]
pub struct Instantiate {
    pub program_id: Pubkey,
    pub accounts: InstantiateAccounts,
    pub args: InstantiateArgs,
}

impl View for Instantiate {
    type V = InstructionState;

    open spec fn view(&self) -> InstructionState {
        InstructionState {
            program_id: self.program_id@,
            accounts: seq![
                self.accounts.program_state@,
                self.accounts.system_program@,
                self.accounts.creator@,
            ],
        }
    }
}

/// What `Instantiate` does: asks for the state's account, 32 bytes at the
/// address that `program_state` derives, paid by the creator, and writes a
/// post count of zero into it. A requested creation is of a new account: the
/// runtime refuses to create one that exists, which is how a second
/// `Instantiate` fails.
#[verifier::opaque]
pub open spec fn instantiate_effect(s: InstructionState) -> Result<Effect, BlawgdError> {
    let state_acc = s.accounts[0];
    let creator = s.accounts[2];
    match written(zeros(32), enc_u128(0)) {
        None => Err(BlawgdError::BorshIoError),
        Some(d) => Ok(
            Effect {
                data: seq![d, s.accounts[1].data, creator.data],
                created: seq![
                    pda(s.program_id, creator.key, state_acc.key, 32, text_seed("program_state"@)),
                ],
            },
        ),
    }
}

impl Instantiate {
    /// Takes the state's account, the system program and the creator off
    /// the front of `accounts`.
    pub fn new(program_id: Pubkey, accounts: Vec<AccountInfo>, args: InstantiateArgs) -> (r:
        Result<Instantiate, BlawgdError>)
        ensures
            accounts@.len() < 3 ==> r == Err::<Instantiate, BlawgdError>(
                BlawgdError::NotEnoughAccountKeys,
            ),
            accounts@.len() >= 3 ==> (r matches Ok(i) && i@ == (InstructionState {
                program_id: program_id@,
                accounts: accounts@.take(3).map_values(|a: AccountInfo| a@),
            })),
    {
        let mut accounts = accounts;
        let ghost all = accounts@;
        let program_state = next_account_info(&mut accounts)?;
        let system_program = next_account_info(&mut accounts)?;
        let creator = next_account_info(&mut accounts)?;
        let i = Instantiate {
            program_id,
            accounts: InstantiateAccounts { program_state, system_program, creator },
            args,
        };
        assert(i@.accounts =~= all.take(3).map_values(|a: AccountInfo| a@));
        Ok(i)
    }

    /// Nothing to check before the run.
    pub fn validate_instruction(&self) -> (r: Result<(), BlawgdError>)
        ensures
            r is Ok,
    {
        Ok(())
    }

    /// The run, which may leave partial writes behind when it fails.
    fn run(&mut self) -> (r: Result<Vec<PdaCreation>, BlawgdError>)
        ensures
            final(self).program_id == old(self).program_id,
            final(self).accounts.program_state.key == old(self).accounts.program_state.key,
            final(self).accounts.system_program.key == old(self).accounts.system_program.key,
            final(self).accounts.creator.key == old(self).accounts.creator.key,
            match instantiate_effect(old(self)@) {
                Err(e) => r == Err::<Vec<PdaCreation>, BlawgdError>(e),
                Ok(eff) => r matches Ok(c) && crate::instructions::creations_view(c@)
                    == eff.created && final(self)@ == after(old(self)@, eff),
            },
    {
        let ghost s = self@;
        proof {
            reveal(instantiate_effect);
        }
        let mut created: Vec<PdaCreation> = Vec::new();
        assert(crate::instructions::creations_view(created@) =~= Seq::empty());
        let space = ProgramState::space()?;
        let seed = ProgramState::seed();
        create_pda(
            &self.program_id,
            space,
            &self.accounts.creator,
            &mut self.accounts.program_state,
            seed,
            &mut created,
        );
        let state = ProgramState { post_count: 0 };
        state.serialize(&mut self.accounts.program_state.data)?;
        proof {
            crate::codec::lemma_le_bytes_len(0, 16);
            let eff = instantiate_effect(s).unwrap();
            assert(crate::instructions::creations_view(created@) =~= eff.created);
            assert(self@.accounts =~= after(s, eff).accounts);
        }
        Ok(created)
    }

    /// Makes the program-wide state; see [`instantiate_effect`].
    pub fn execute_instruction(&mut self) -> (r: Result<Vec<PdaCreation>, BlawgdError>)
        ensures
            match instantiate_effect(old(self)@) {
                Err(e) => r == Err::<Vec<PdaCreation>, BlawgdError>(e) && final(self)@ == old(self)@,
                Ok(eff) => r matches Ok(c) && crate::instructions::creations_view(c@)
                    == eff.created && final(self)@ == after(old(self)@, eff),
            },
    {
        let ghost s = self@;
        let saved0 = crate::codec::copy_bytes(self.accounts.program_state.data.as_slice());
        let saved1 = crate::codec::copy_bytes(self.accounts.system_program.data.as_slice());
        let saved2 = crate::codec::copy_bytes(self.accounts.creator.data.as_slice());
        match self.run() {
            Ok(c) => Ok(c),
            Err(e) => {
                crate::instructions::restore(&mut self.accounts.program_state, saved0);
                crate::instructions::restore(&mut self.accounts.system_program, saved1);
                crate::instructions::restore(&mut self.accounts.creator, saved2);
                assert(self@.accounts =~= s.accounts);
                Err(e)
            },
        }
    }

    /// The accounts, in the order the instruction took them.
    pub fn into_accounts(self) -> (v: Vec<AccountInfo>)
        ensures
            v@.map_values(|a: AccountInfo| a@) == self@.accounts,
    {
        let Instantiate { program_id: _, accounts, args: _ } = self;
        let v = vec![accounts.program_state, accounts.system_program, accounts.creator];
        assert(v@.map_values(|a: AccountInfo| a@) =~= self@.accounts);
        v
    }
}

impl Instruction for Instantiate {
    fn validate(&self) -> (r: Result<(), BlawgdError>)
        ensures
            r is Ok,
    {
        self.validate_instruction()
    }

    fn execute(&mut self) -> (r: Result<Vec<PdaCreation>, BlawgdError>)
        ensures
            match instantiate_effect(old(self)@) {
                Err(e) => r == Err::<Vec<PdaCreation>, BlawgdError>(e) && final(self)@ == old(self)@,
                Ok(eff) => r matches Ok(c) && crate::instructions::creations_view(c@)
                    == eff.created && final(self)@ == after(old(self)@, eff),
            },
    {
        self.execute_instruction()
    }
}

} // verus!
