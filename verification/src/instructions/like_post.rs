//! `LikePost`: a user likes a post.
use crate::codec::str_fits;
use crate::error::BlawgdError;
use crate::instructions::{
    after, next_account_info, written, AccountInfo, Effect, Instruction, InstructionState, LikePostArgs, PdaCreation,
};
use crate::state::address::{base58, text_seed, Pubkey};
use crate::state::post::{
    enc_post, enc_status, parse_post, parse_status, Post, PostData, PostUserInteractionStatus,
};
use vstd::prelude::*;

verus! {

/// The accounts of `LikePost`, in the order it takes them.
#[derive(Debug)]
pub struct LikePostAccounts {
    pub post_account: AccountInfo,
    pub post_user_interaction_status: AccountInfo,
    pub system_program: AccountInfo,
    pub signer: AccountInfo,
}

/// A `LikePost` instruction with its accounts.
#[derive(Debug)]
pub struct LikePost {
    pub program_id: Pubkey,
    pub accounts: LikePostAccounts,
    pub args: LikePostArgs,
}

impl View for LikePost {
    type V = InstructionState;

    open spec fn view(&self) -> InstructionState {
        InstructionState {
            program_id: self.program_id@,
            accounts: seq![
                self.accounts.post_account@,
                self.accounts.post_user_interaction_status@,
                self.accounts.system_program@,
                self.accounts.signer@,
            ],
        }
    }
}

/// A user's status on a post before anything was done: all false.
pub open spec fn fresh_status() -> PostUserInteractionStatus {
    PostUserInteractionStatus { liked: false, commented: false, reposted: false }
}

/// The status kept in an account's data, or a fresh one when the account
/// is still empty.
pub open spec fn status_or_fresh(data: Seq<u8>) -> Option<PostUserInteractionStatus> {
    if data.len() == 0 {
        Some(fresh_status())
    } else {
        match parse_status(data) {
            None => None,
            Some((s, _)) => Some(s),
        }
    }
}

/// The seed of the status of `user` on `post`.
pub open spec fn status_seed(post: Seq<u8>, user: Seq<u8>) -> Seq<u8> {
    text_seed("post-user-interaction-status-"@ + base58(post) + "-"@ + base58(user))
}

/// The post with one more like.
pub open spec fn liked_post(p: PostData) -> PostData {
    PostData { like_count: (p.like_count + 1) as u128, ..p }
}

/// What `LikePost` does: reads the post and the user's status on it (which
/// must exist already), refuses a second like by the same user, adds one
/// to the post's likes, marks the status liked, and writes both back. It
/// asks for no account.
#[verifier::opaque]
pub open spec fn like_post_effect(s: InstructionState) -> Result<Effect, BlawgdError> {
    let post_acc = s.accounts[0];
    let status_acc = s.accounts[1];
    match parse_post(post_acc.data) {
        None => Err(BlawgdError::BorshIoError),
        Some((post, _)) => match parse_status(status_acc.data) {
            None => Err(BlawgdError::BorshIoError),
            Some((status, _)) => if status.liked {
                Err(BlawgdError::AlreadyLiked)
            } else if post.like_count == u128::MAX {
                Err(BlawgdError::ArithmeticOverflow)
            } else {
                let new_status = PostUserInteractionStatus { liked: true, ..status };
                if !str_fits(post.content) {
                    Err(BlawgdError::BorshIoError)
                } else {
                    match written(post_acc.data, enc_post(liked_post(post))) {
                        None => Err(BlawgdError::BorshIoError),
                        Some(new_post_data) => match written(status_acc.data, enc_status(new_status)) {
                            None => Err(BlawgdError::BorshIoError),
                            Some(new_status_data) => Ok(
                                Effect {
                                    data: seq![
                                        new_post_data,
                                        new_status_data,
                                        s.accounts[2].data,
                                        s.accounts[3].data,
                                    ],
                                    created: Seq::empty(),
                                },
                            ),
                        },
                    }
                }
            },
        },
    }
}

impl LikePost {
    /// Takes the post, the user's status on it, the system program and the
    /// signer off the front of `accounts`.
    pub fn new(program_id: Pubkey, accounts: Vec<AccountInfo>, args: LikePostArgs) -> (r: Result<
        LikePost,
        BlawgdError,
    >)
        ensures
            accounts@.len() < 4 ==> r == Err::<LikePost, BlawgdError>(
                BlawgdError::NotEnoughAccountKeys,
            ),
            accounts@.len() >= 4 ==> (r matches Ok(i) && i@ == (InstructionState {
                program_id: program_id@,
                accounts: accounts@.take(4).map_values(|a: AccountInfo| a@),
            })),
    {
        let mut accounts = accounts;
        let ghost all = accounts@;
        let post_account = next_account_info(&mut accounts)?;
        let post_user_interaction_status = next_account_info(&mut accounts)?;
        let system_program = next_account_info(&mut accounts)?;
        let signer = next_account_info(&mut accounts)?;
        let i = LikePost {
            program_id,
            accounts: LikePostAccounts {
                post_account,
                post_user_interaction_status,
                system_program,
                signer,
            },
            args,
        };
        assert(i@.accounts =~= all.take(4).map_values(|a: AccountInfo| a@));
        Ok(i)
    }

    /// Nothing to check before the run.
    pub fn validate_instruction(&self) -> (r: Result<(), BlawgdError>)
        ensures
            r is Ok,
    {
        Ok(())
    }

    /// The run, which may leave partial writes behind when it fails.
    fn run(&mut self) -> (r: Result<Vec<PdaCreation>, BlawgdError>)
        ensures
            final(self).program_id == old(self).program_id,
            final(self).accounts.post_account.key == old(self).accounts.post_account.key,
            final(self).accounts.post_user_interaction_status.key == old(self).accounts.post_user_interaction_status.key,
            final(self).accounts.system_program.key == old(self).accounts.system_program.key,
            final(self).accounts.signer.key == old(self).accounts.signer.key,
            match like_post_effect(old(self)@) {
                Err(e) => r == Err::<Vec<PdaCreation>, BlawgdError>(e),
                Ok(eff) => r matches Ok(c) && crate::instructions::creations_view(c@)
                    == eff.created && final(self)@ == after(old(self)@, eff),
            },
    {
        let ghost s = self@;
        proof {
            reveal(like_post_effect);
        }
        let created: Vec<PdaCreation> = Vec::new();
        assert(crate::instructions::creations_view(created@) =~= Seq::empty());
        let mut post = Post::deserialize(self.accounts.post_account.data.as_slice())?;
        let mut status = PostUserInteractionStatus::deserialize(
            self.accounts.post_user_interaction_status.data.as_slice(),
        )?;
        if status.liked {
            return Err(BlawgdError::AlreadyLiked);
        }
        if post.like_count == u128::MAX {
            return Err(BlawgdError::ArithmeticOverflow);
        }
        post.like_count = post.like_count + 1;
        status.liked = true;
        post.serialize(&mut self.accounts.post_account.data)?;
        status.serialize(&mut self.accounts.post_user_interaction_status.data)?;
        proof {
            let eff = like_post_effect(s).unwrap();
            assert(self@.accounts =~= after(s, eff).accounts);
        }
        Ok(created)
    }

    /// Likes the post; see [`like_post_effect`].
    pub fn execute_instruction(&mut self) -> (r: Result<Vec<PdaCreation>, BlawgdError>)
        ensures
            match like_post_effect(old(self)@) {
                Err(e) => r == Err::<Vec<PdaCreation>, BlawgdError>(e) && final(self)@ == old(self)@,
                Ok(eff) => r matches Ok(c) && crate::instructions::creations_view(c@)
                    == eff.created && final(self)@ == after(old(self)@, eff),
            },
    {
        let ghost s = self@;
        let saved0 = crate::codec::copy_bytes(self.accounts.post_account.data.as_slice());
        let saved1 = crate::codec::copy_bytes(self.accounts.post_user_interaction_status.data.as_slice());
        let saved2 = crate::codec::copy_bytes(self.accounts.system_program.data.as_slice());
        let saved3 = crate::codec::copy_bytes(self.accounts.signer.data.as_slice());
        match self.run() {
            Ok(c) => Ok(c),
            Err(e) => {
                crate::instructions::restore(&mut self.accounts.post_account, saved0);
                crate::instructions::restore(&mut self.accounts.post_user_interaction_status, saved1);
                crate::instructions::restore(&mut self.accounts.system_program, saved2);
                crate::instructions::restore(&mut self.accounts.signer, saved3);
                assert(self@.accounts =~= s.accounts);
                Err(e)
            },
        }
    }

    /// The accounts, in the order the instruction took them.
    pub fn into_accounts(self) -> (v: Vec<AccountInfo>)
        ensures
            v@.map_values(|a: AccountInfo| a@) == self@.accounts,
    {
        let LikePost { program_id: _, accounts, args: _ } = self;
        let v = vec![
            accounts.post_account,
            accounts.post_user_interaction_status,
            accounts.system_program,
            accounts.signer,
        ];
        assert(v@.map_values(|a: AccountInfo| a@) =~= self@.accounts);
        v
    }
}

impl Instruction for LikePost {
    fn validate(&self) -> (r: Result<(), BlawgdError>)
        ensures
            r is Ok,
    {
        self.validate_instruction()
    }

    fn execute(&mut self) -> (r: Result<Vec<PdaCreation>, BlawgdError>)
        ensures
            match like_post_effect(old(self)@) {
                Err(e) => r == Err::<Vec<PdaCreation>, BlawgdError>(e) && final(self)@ == old(self)@,
                Ok(eff) => r matches Ok(c) && crate::instructions::creations_view(c@)
                    == eff.created && final(self)@ == after(old(self)@, eff),
            },
    {
        self.execute_instruction()
    }
}

} // verus!
