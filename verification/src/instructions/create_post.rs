//! `CreatePost`: a user writes a post, possibly a comment on or a repost of
//! another post.
use crate::codec::{enc_key, enc_u128, parse_u128, str_fits};
use crate::error::BlawgdError;
use crate::instructions::like_post::{status_or_fresh, status_seed};
use crate::instructions::{
    after, create_pda, creations_view, existing_or_new, next_account_info,
    next_optional_account, pda, written, zeros, AccountData, AccountInfo, CreatePostArgs, Effect,
    Instruction, InstructionState, PdaCreation,
};
use crate::state::account::{
    enc_user_account, parse_user_account, profile_fits, AccountPost, UserAccount, UserAccountData,
};
use crate::state::address::{base58, text_seed, Pubkey};
use crate::state::post::{
    comment_seed, enc_post, enc_status, opt_key_view, parse_post, Comment, Post, PostData,
    PostUserInteractionStatus,
};
use crate::state::program_state::ProgramState;
use crate::text::decimal;
use vstd::prelude::*;

verus! {

/// The accounts of `CreatePost`, in the order it takes them; the last three
/// are given for a comment or a repost (the record of the comment only for
/// a comment).
#[derive(Debug)]
pub struct CreatePostAccounts {
    pub program_state: AccountInfo,
    pub user_account: AccountInfo,
    pub post: AccountInfo,
    pub account_post: AccountInfo,
    pub system_program: AccountInfo,
    pub signer: AccountInfo,
    pub parent_post: Option<AccountInfo>,
    pub parent_post_user_interaction_status: Option<AccountInfo>,
    pub comment: Option<AccountInfo>,
}

/// A `CreatePost` instruction with its accounts.
#[derive(Debug)]
pub struct CreatePost {
    pub program_id: Pubkey,
    pub accounts: CreatePostAccounts,
    pub args: CreatePostArgs,
}

/// The optional accounts, as far as they are taken in order: the status
/// only after the parent post, the record of the comment only after both.
pub open spec fn optional_accounts(
    parent: Option<AccountInfo>,
    status: Option<AccountInfo>,
    comment: Option<AccountInfo>,
) -> Seq<AccountData> {
    match parent {
        None => Seq::empty(),
        Some(p) => match status {
            None => seq![p@],
            Some(st) => match comment {
                None => seq![p@, st@],
                Some(c) => seq![p@, st@, c@],
            },
        },
    }
}

impl View for CreatePost {
    type V = InstructionState;

    open spec fn view(&self) -> InstructionState {
        InstructionState {
            program_id: self.program_id@,
            accounts: seq![
                self.accounts.program_state@,
                self.accounts.user_account@,
                self.accounts.post@,
                self.accounts.account_post@,
                self.accounts.system_program@,
                self.accounts.signer@,
            ] + optional_accounts(
                self.accounts.parent_post,
                self.accounts.parent_post_user_interaction_status,
                self.accounts.comment,
            ),
        }
    }
}

/// The seed of the `n`-th post.
pub open spec fn post_seed(n: nat) -> Seq<u8> {
    text_seed("post-"@ + decimal(n))
}

/// The seed of the record of the `n`-th post of `user`.
pub open spec fn account_post_seed(user: Seq<u8>, n: nat) -> Seq<u8> {
    text_seed("account-post-"@ + base58(user) + "-"@ + decimal(n))
}

/// The new post: no likes, comments or reposts yet.
pub open spec fn new_post(
    parent_post: Option<Seq<u8>>,
    creator: Seq<u8>,
    is_repost: bool,
    content: Seq<char>,
) -> PostData {
    PostData {
        parent_post,
        creator,
        content,
        is_repost,
        like_count: 0,
        comment_count: 0,
        repost_count: 0,
    }
}

/// The data of the accounts after the first six, unchanged.
pub open spec fn rest_data(accounts: Seq<AccountData>) -> Seq<Seq<u8>> {
    accounts.skip(6).map_values(|a: AccountData| a.data)
}

/// The first part of `CreatePost`: reads the signer's account and the
/// program-wide state, counts one more post in each, asks for the post's
/// account (393 bytes, seeded by the new total) and for the record of it
/// among the signer's posts (32 bytes, seeded by the signer and their new
/// count), and writes the four accounts.
#[verifier::opaque]
pub open spec fn create_post_core_effect(
    s: InstructionState,
    parent_post: Option<Seq<u8>>,
    is_repost: bool,
    content: Seq<char>,
) -> Result<Effect, BlawgdError> {
    let state_acc = s.accounts[0];
    let user_acc = s.accounts[1];
    let post_acc = s.accounts[2];
    let record_acc = s.accounts[3];
    let signer = s.accounts[5];
    match parse_user_account(user_acc.data) {
        None => Err(BlawgdError::BorshIoError),
        Some((user, _)) => match parse_u128(state_acc.data) {
            None => Err(BlawgdError::BorshIoError),
            Some((total, _)) => if user.post_count == u128::MAX || total == u128::MAX {
                Err(BlawgdError::ArithmeticOverflow)
            } else {
                let new_user = UserAccountData { post_count: (user.post_count + 1) as u128, ..user };
                let new_total = (total + 1) as u128;
                let post = new_post(parent_post, signer.key, is_repost, content);
                let created = seq![
                    pda(s.program_id, signer.key, post_acc.key, 393, post_seed(new_total as nat)),
                    pda(
                        s.program_id,
                        signer.key,
                        record_acc.key,
                        32,
                        account_post_seed(signer.key, new_user.post_count as nat),
                    ),
                ];
                if !profile_fits(user.profile) {
                    Err(BlawgdError::BorshIoError)
                } else {
                    match written(user_acc.data, enc_user_account(new_user)) {
                        None => Err(BlawgdError::BorshIoError),
                        Some(d1) => match written(state_acc.data, enc_u128(new_total)) {
                            None => Err(BlawgdError::BorshIoError),
                            Some(d0) => if !str_fits(content) {
                                Err(BlawgdError::BorshIoError)
                            } else {
                                match written(zeros(393), enc_post(post)) {
                                    None => Err(BlawgdError::BorshIoError),
                                    Some(d2) => match written(zeros(32), enc_key(post_acc.key)) {
                                        None => Err(BlawgdError::BorshIoError),
                                        Some(d3) => Ok(
                                            Effect {
                                                data: seq![
                                                    d0,
                                                    d1,
                                                    d2,
                                                    d3,
                                                    s.accounts[4].data,
                                                    signer.data,
                                                ] + rest_data(s.accounts),
                                                created,
                                            },
                                        ),
                                    },
                                }
                            },
                        },
                    }
                }
            },
        },
    }
}

/// The parent post after a comment or a repost.
pub open spec fn answered_post(p: PostData, is_repost: bool) -> PostData {
    if is_repost {
        PostData { repost_count: (p.repost_count + 1) as u128, ..p }
    } else {
        PostData { comment_count: (p.comment_count + 1) as u128, ..p }
    }
}

/// The signer's status on the parent post after a comment or a repost.
pub open spec fn answered_status(
    st: PostUserInteractionStatus,
    is_repost: bool,
) -> PostUserInteractionStatus {
    if is_repost {
        PostUserInteractionStatus { reposted: true, ..st }
    } else {
        PostUserInteractionStatus { commented: true, ..st }
    }
}

/// The second part of `CreatePost`, for a comment or a repost (accounts 6
/// and 7 are the parent post and the signer's status on it, account 8, when
/// given, the record of the comment): reads the status (asking for it, 6
/// bytes, when it is still empty) and the parent post, refuses a comment
/// on a post that is itself a repost, marks the status commented or reposted, counts one more comment or repost on the parent,
/// and writes both. For a comment, it then asks for the record (32 bytes,
/// seeded by the parent and its new comment count) and writes the new
/// post's address (account 2) into it. A comment given without a record
/// account is still written, with no record kept; a repost leaves a record
/// account given as it was.
#[verifier::opaque]
pub open spec fn parent_effect(s: InstructionState, is_repost: bool) -> Result<Effect, BlawgdError> {
    let signer = s.accounts[5];
    let parent_acc = s.accounts[6];
    let status_acc = s.accounts[7];
    let status_data = existing_or_new(status_acc.data, 6);
    let created = if status_acc.data.len() == 0 {
        seq![pda(s.program_id, signer.key, status_acc.key, 6, status_seed(parent_acc.key, signer.key))]
    } else {
        Seq::empty()
    };
    match status_or_fresh(status_acc.data) {
        None => Err(BlawgdError::BorshIoError),
        Some(status) => match parse_post(parent_acc.data) {
            None => Err(BlawgdError::BorshIoError),
            Some((parent, _)) => if !is_repost && parent.is_repost {
                Err(BlawgdError::CommentOnRepost)
            } else if (is_repost && parent.repost_count == u128::MAX) || (!is_repost
                && parent.comment_count == u128::MAX) {
                Err(BlawgdError::ArithmeticOverflow)
            } else {
                match written(status_data, enc_status(answered_status(status, is_repost))) {
                    None => Err(BlawgdError::BorshIoError),
                    Some(d7) => if !str_fits(parent.content) {
                        Err(BlawgdError::BorshIoError)
                    } else {
                        match written(parent_acc.data, enc_post(answered_post(parent, is_repost))) {
                            None => Err(BlawgdError::BorshIoError),
                            Some(d6) => {
                                let data = s.accounts.take(6).map_values(|a: AccountData| a.data)
                                    + seq![d6, d7];
                                if s.accounts.len() <= 8 {
                                    Ok(Effect { data, created })
                                } else if is_repost {
                                    Ok(Effect { data: data.push(s.accounts[8].data), created })
                                } else {
                                    match written(zeros(32), enc_key(s.accounts[2].key)) {
                                        None => Err(BlawgdError::BorshIoError),
                                        Some(d8) => Ok(
                                            Effect {
                                                data: data.push(d8),
                                                created: created.push(
                                                    pda(
                                                        s.program_id,
                                                        signer.key,
                                                        s.accounts[8].key,
                                                        32,
                                                        comment_seed(
                                                            parent_acc.key,
                                                            answered_post(
                                                                parent,
                                                                false,
                                                            ).comment_count as nat,
                                                        ),
                                                    ),
                                                ),
                                            },
                                        ),
                                    }
                                }
                            },
                        }
                    },
                }
            },
        },
    }
}

/// What `CreatePost` does: the first part; then, when a parent post is
/// given, the second part, which fails with `InvalidAccountData` when the
/// signer's status on the parent is not given too.
#[verifier::opaque]
pub open spec fn create_post_effect(
    s: InstructionState,
    parent_post: Option<Seq<u8>>,
    is_repost: bool,
    content: Seq<char>,
) -> Result<Effect, BlawgdError> {
    match create_post_core_effect(s, parent_post, is_repost, content) {
        Err(e) => Err(e),
        Ok(e1) => if s.accounts.len() <= 6 {
            Ok(e1)
        } else if s.accounts.len() == 7 {
            Err(BlawgdError::InvalidAccountData)
        } else {
            match parent_effect(after(s, e1), is_repost) {
                Err(e) => Err(e),
                Ok(e2) => Ok(Effect { data: e2.data, created: e1.created + e2.created }),
            }
        },
    }
}

impl CreatePost {
    /// Takes the program-wide state, the signer's account, the post, the
    /// record of it, the system program and the signer off the front of
    /// `accounts`, then the parent post, the signer's status on it and the
    /// record of the comment when they are there.
    pub fn new(program_id: Pubkey, accounts: Vec<AccountInfo>, args: CreatePostArgs) -> (r: Result<
        CreatePost,
        BlawgdError,
    >)
        ensures
            accounts@.len() < 6 ==> r == Err::<CreatePost, BlawgdError>(
                BlawgdError::NotEnoughAccountKeys,
            ),
            accounts@.len() >= 6 ==> (r matches Ok(i) && i@ == (InstructionState {
                program_id: program_id@,
                accounts: accounts@.take(
                    if accounts@.len() < 9 {
                        accounts@.len() as int
                    } else {
                        9
                    },
                ).map_values(|a: AccountInfo| a@),
            }) && i.args.parent_post == args.parent_post && i.args.is_repost == args.is_repost
                && i.args.content@ == args.content@),
    {
        let mut accounts = accounts;
        let ghost all = accounts@;
        let program_state = next_account_info(&mut accounts)?;
        let user_account = next_account_info(&mut accounts)?;
        let post = next_account_info(&mut accounts)?;
        let account_post = next_account_info(&mut accounts)?;
        let system_program = next_account_info(&mut accounts)?;
        let signer = next_account_info(&mut accounts)?;
        let parent_post = next_optional_account(&mut accounts);
        let parent_post_user_interaction_status = next_optional_account(&mut accounts);
        let comment = next_optional_account(&mut accounts);
        let i = CreatePost {
            program_id,
            accounts: CreatePostAccounts {
                program_state,
                user_account,
                post,
                account_post,
                system_program,
                signer,
                parent_post,
                parent_post_user_interaction_status,
                comment,
            },
            args,
        };
        let ghost k: int = if all.len() < 9 {
            all.len() as int
        } else {
            9
        };
        assert(i@.accounts =~= all.take(k).map_values(|a: AccountInfo| a@));
        Ok(i)
    }

    /// Nothing to check before the run.
    pub fn validate_instruction(&self) -> (r: Result<(), BlawgdError>)
        ensures
            r is Ok,
    {
        Ok(())
    }

    /// The first part of the run; see [`create_post_core_effect`].
    #[verifier::rlimit(60)]
    #[verifier::spinoff_prover]
    fn execute_core(&mut self, created: &mut Vec<PdaCreation>) -> (r: Result<(), BlawgdError>)
        requires
            old(self)@.accounts.len() >= 6,
            creations_view(old(created)@) == Seq::<crate::instructions::PdaCreationData>::empty(),
        ensures
            final(self).args.parent_post == old(self).args.parent_post,
            final(self).args.is_repost == old(self).args.is_repost,
            final(self).args.content@ == old(self).args.content@,
            final(self).accounts.parent_post == old(self).accounts.parent_post,
            final(self).accounts.parent_post_user_interaction_status == old(
                self,
            ).accounts.parent_post_user_interaction_status,
            final(self).accounts.comment == old(self).accounts.comment,
            final(self).program_id == old(self).program_id,
            final(self).accounts.program_state.key == old(self).accounts.program_state.key,
            final(self).accounts.user_account.key == old(self).accounts.user_account.key,
            final(self).accounts.post.key == old(self).accounts.post.key,
            final(self).accounts.account_post.key == old(self).accounts.account_post.key,
            final(self).accounts.system_program.key == old(self).accounts.system_program.key,
            final(self).accounts.signer.key == old(self).accounts.signer.key,
            match create_post_core_effect(
                old(self)@,
                opt_key_view(old(self).args.parent_post),
                old(self).args.is_repost,
                old(self).args.content@,
            ) {
                Err(e) => r == Err::<(), BlawgdError>(e),
                Ok(eff) => r is Ok && creations_view(final(created)@) == eff.created && final(self)@
                    == after(old(self)@, eff),
            },
    {
        let ghost s = self@;
        proof {
            reveal(create_post_core_effect);
        }
        let mut user = UserAccount::deserialize(self.accounts.user_account.data.as_slice())?;
        let mut state = ProgramState::deserialize(self.accounts.program_state.data.as_slice())?;
        let post = Post {
            creator: self.accounts.signer.key,
            content: self.args.content.clone(),
            parent_post: self.args.parent_post,
            is_repost: self.args.is_repost,
            like_count: 0,
            comment_count: 0,
            repost_count: 0,
        };
        let record = AccountPost { post: self.accounts.post.key };
        if user.post_count == u128::MAX || state.post_count == u128::MAX {
            return Err(BlawgdError::ArithmeticOverflow);
        }
        user.post_count = user.post_count + 1;
        state.post_count = state.post_count + 1;
        let post_space = Post::space()?;
        let post_seed = Post::seed(state.post_count);
        create_pda(
            &self.program_id,
            post_space,
            &self.accounts.signer,
            &mut self.accounts.post,
            post_seed,
            created,
        );
        let record_space = AccountPost::space()?;
        let record_seed = AccountPost::seed(post.creator, user.post_count);
        create_pda(
            &self.program_id,
            record_space,
            &self.accounts.signer,
            &mut self.accounts.account_post,
            record_seed,
            created,
        );
        user.serialize(&mut self.accounts.user_account.data)?;
        state.serialize(&mut self.accounts.program_state.data)?;
        proof {
            crate::codec::lemma_le_bytes_len(state.post_count as nat, 16);
        }
        post.serialize(&mut self.accounts.post.data)?;
        record.serialize(&mut self.accounts.account_post.data)?;
        proof {
            let eff = create_post_core_effect(
                s,
                opt_key_view(self.args.parent_post),
                self.args.is_repost,
                self.args.content@,
            ).unwrap();
            assert(creations_view(created@) =~= eff.created);
            assert(self@.accounts =~= after(s, eff).accounts);
        }
        Ok(())
    }

    /// The second part of the run on the parent post, the signer's status
    /// on it and the record of the comment, for the state `s` that they are
    /// accounts 6, 7 and 8 of; see [`parent_effect`].
    fn answer(
        program_id: &Pubkey,
        signer: &AccountInfo,
        post_key: Pubkey,
        is_repost: bool,
        parent_acc: &mut AccountInfo,
        status_acc: &mut AccountInfo,
        comment: &mut Option<AccountInfo>,
        created: &mut Vec<PdaCreation>,
        Ghost(s): Ghost<InstructionState>,
    ) -> (r: Result<(), BlawgdError>)
        requires
            s.accounts.len() == 8 || s.accounts.len() == 9,
            s.accounts.len() == 9 <==> (*old(comment)) is Some,
            (*old(comment)) matches Some(c) ==> s.accounts[8] == c@,
            s.program_id == program_id@,
            s.accounts[2].key == post_key@,
            s.accounts[5] == signer@,
            s.accounts[6] == old(parent_acc)@,
            s.accounts[7] == old(status_acc)@,
        ensures
            final(parent_acc).key == old(parent_acc).key,
            final(status_acc).key == old(status_acc).key,
            (*final(comment)) is Some == (*old(comment)) is Some,
            (*final(comment)) matches Some(c) ==> c.key == (*old(comment))->Some_0.key,
            match parent_effect(s, is_repost) {
                Err(e) => r == Err::<(), BlawgdError>(e),
                Ok(eff) => r is Ok && creations_view(final(created)@) == creations_view(
                    old(created)@,
                ) + eff.created && final(parent_acc).data@ == eff.data[6]
                    && final(status_acc).data@ == eff.data[7] && ((*final(comment)) matches Some(c)
                    ==> c.data@ == eff.data[8]),
            },
    {
        let ghost before = creations_view(created@);
        proof {
            reveal(parent_effect);
        }
        let mut status = if status_acc.data.len() > 0 {
            PostUserInteractionStatus::deserialize(status_acc.data.as_slice())?
        } else {
            let space = PostUserInteractionStatus::space()?;
            let seed = PostUserInteractionStatus::seed(parent_acc.key, signer.key);
            create_pda(program_id, space, signer, status_acc, seed, created);
            PostUserInteractionStatus::default()
        };
        let mut parent = Post::deserialize(parent_acc.data.as_slice())?;
        if !is_repost && parent.is_repost {
            return Err(BlawgdError::CommentOnRepost);
        }
        if is_repost {
            if parent.repost_count == u128::MAX {
                return Err(BlawgdError::ArithmeticOverflow);
            }
            status.reposted = true;
            parent.repost_count = parent.repost_count + 1;
        } else {
            if parent.comment_count == u128::MAX {
                return Err(BlawgdError::ArithmeticOverflow);
            }
            status.commented = true;
            parent.comment_count = parent.comment_count + 1;
            let ghost before_comment = creations_view(created@);
            let space = Comment::space()?;
            match comment.take() {
                None => {},
                Some(mut c) => {
                    let seed = Comment::seed(parent_acc.key, parent.comment_count);
                    create_pda(program_id, space, signer, &mut c, seed, created);
                    let record = Comment { post: post_key };
                    let written_record = record.serialize(&mut c.data);
                    *comment = Some(c);
                    written_record?;
                },
            }
            proof {
                if (*old(comment)) is Some {
                    assert(creations_view(created@) == before_comment.push(
                        pda(
                            s.program_id,
                            s.accounts[5].key,
                            s.accounts[8].key,
                            32,
                            comment_seed(s.accounts[6].key, parent.comment_count as nat),
                        ),
                    ));
                }
            }
        }
        status.serialize(&mut status_acc.data)?;
        parent.serialize(&mut parent_acc.data)?;
        proof {
            let eff = parent_effect(s, is_repost).unwrap();
            assert(creations_view(created@) =~= before + eff.created);
        }
        Ok(())
    }

    /// The second part of the run, for a comment or a repost; see
    /// [`parent_effect`]. The parent post, the status and the record of the
    /// comment stay in place whatever happens.
    fn execute_parent(&mut self, created: &mut Vec<PdaCreation>) -> (r: Result<(), BlawgdError>)
        requires
            old(self)@.accounts.len() == 8 || old(self)@.accounts.len() == 9,
            old(self).accounts.parent_post is Some,
            old(self).accounts.parent_post_user_interaction_status is Some,
        ensures
            final(self).args.parent_post == old(self).args.parent_post,
            final(self).args.is_repost == old(self).args.is_repost,
            final(self).args.content@ == old(self).args.content@,
            final(self).program_id == old(self).program_id,
            final(self)@.accounts.len() == old(self)@.accounts.len(),
            final(self).accounts.parent_post is Some,
            final(self).accounts.parent_post_user_interaction_status is Some,
            final(self).accounts.comment is Some == old(self).accounts.comment is Some,
            forall|i: int| 0 <= i < old(self)@.accounts.len() ==> #[trigger] final(self)@.accounts[i].key == old(self)@.accounts[i].key,
            forall|i: int| 0 <= i < 6 ==> #[trigger] final(self)@.accounts[i] == old(self)@.accounts[i],
            match parent_effect(old(self)@, old(self).args.is_repost) {
                Err(e) => r == Err::<(), BlawgdError>(e),
                Ok(eff) => r is Ok && creations_view(final(created)@) == creations_view(
                    old(created)@,
                ) + eff.created && final(self)@ == after(old(self)@, eff),
            },
    {
        let ghost s = self@;
        let mut parent_acc = self.accounts.parent_post.take().unwrap();
        let mut status_acc = self.accounts.parent_post_user_interaction_status.take().unwrap();
        let mut comment = self.accounts.comment.take();
        let r = Self::answer(
            &self.program_id,
            &self.accounts.signer,
            self.accounts.post.key,
            self.args.is_repost,
            &mut parent_acc,
            &mut status_acc,
            &mut comment,
            created,
            Ghost(s),
        );
        self.accounts.parent_post = Some(parent_acc);
        self.accounts.parent_post_user_interaction_status = Some(status_acc);
        self.accounts.comment = comment;
        proof {
            if r is Ok {
                reveal(parent_effect);
                let eff = parent_effect(s, self.args.is_repost).unwrap();
                assert(self@.accounts =~= after(s, eff).accounts);
            }
        }
        r
    }

    /// The run, which may leave partial writes behind when it fails.
    #[verifier::rlimit(60)]
    #[verifier::spinoff_prover]
    fn run(&mut self) -> (r: Result<Vec<PdaCreation>, BlawgdError>)
        ensures
            final(self)@.program_id == old(self)@.program_id,
            final(self)@.accounts.len() == old(self)@.accounts.len(),
            forall|i: int|
                0 <= i < old(self)@.accounts.len() ==> #[trigger] final(self)@.accounts[i].key == old(
                    self,
                )@.accounts[i].key,
            final(self).accounts.parent_post is Some == old(self).accounts.parent_post is Some,
            final(self).accounts.parent_post_user_interaction_status is Some == old(
                self,
            ).accounts.parent_post_user_interaction_status is Some,
            final(self).accounts.comment is Some == old(self).accounts.comment is Some,
            match create_post_effect(
                old(self)@,
                opt_key_view(old(self).args.parent_post),
                old(self).args.is_repost,
                old(self).args.content@,
            ) {
                Err(e) => r == Err::<Vec<PdaCreation>, BlawgdError>(e),
                Ok(eff) => r matches Ok(c) && creations_view(c@) == eff.created && final(self)@
                    == after(old(self)@, eff),
            },
    {
        let ghost s = self@;
        proof {
            reveal(create_post_effect);
        }
        let mut created: Vec<PdaCreation> = Vec::new();
        assert(creations_view(created@) =~= Seq::empty());
        self.execute_core(&mut created)?;
        let ghost s1 = self@;
        let ghost e1 = create_post_core_effect(
            s,
            opt_key_view(self.args.parent_post),
            self.args.is_repost,
            self.args.content@,
        ).unwrap();
        assert(s1 == after(s, e1));
        if self.accounts.parent_post.is_none() {
            assert(s.accounts.len() == 6);
            return Ok(created);
        }
        if self.accounts.parent_post_user_interaction_status.is_none() {
            assert(s.accounts.len() == 7);
            return Err(BlawgdError::InvalidAccountData);
        }
        assert(s.accounts.len() == 8 || s.accounts.len() == 9);
        let ghost before_parent = self@;
        let answered = self.execute_parent(&mut created);
        proof {
            assert forall|i: int| 0 <= i < s.accounts.len() implies #[trigger] self@.accounts[i].key
                == s.accounts[i].key by {
                assert(self@.accounts[i].key == before_parent.accounts[i].key);
            }
        }
        if let Err(e) = answered {
            return Err(e);
        }
        proof {
            let e2 = parent_effect(s1, self.args.is_repost).unwrap();
            let e = Effect { data: e2.data, created: e1.created + e2.created };
            assert(after(s1, e2).accounts =~= after(s, e).accounts);
            assert(self@ == after(s, e));
            assert(create_post_effect(
                s,
                opt_key_view(self.args.parent_post),
                self.args.is_repost,
                self.args.content@,
            ) == Ok::<Effect, BlawgdError>(e));
        }
        Ok(created)
    }

    /// Writes the post, and answers its parent; see [`create_post_effect`].
    pub fn execute_instruction(&mut self) -> (r: Result<Vec<PdaCreation>, BlawgdError>)
        ensures
            match create_post_effect(
                old(self)@,
                opt_key_view(old(self).args.parent_post),
                old(self).args.is_repost,
                old(self).args.content@,
            ) {
                Err(e) => r == Err::<Vec<PdaCreation>, BlawgdError>(e) && final(self)@ == old(self)@,
                Ok(eff) => r matches Ok(c) && creations_view(c@) == eff.created && final(self)@
                    == after(old(self)@, eff),
            },
    {
        let ghost s = self@;
        let saved0 = crate::codec::copy_bytes(self.accounts.program_state.data.as_slice());
        let saved1 = crate::codec::copy_bytes(self.accounts.user_account.data.as_slice());
        let saved2 = crate::codec::copy_bytes(self.accounts.post.data.as_slice());
        let saved3 = crate::codec::copy_bytes(self.accounts.account_post.data.as_slice());
        let saved4 = crate::codec::copy_bytes(self.accounts.system_program.data.as_slice());
        let saved5 = crate::codec::copy_bytes(self.accounts.signer.data.as_slice());
        let saved6 = match &self.accounts.parent_post {
            None => None,
            Some(a) => Some(crate::codec::copy_bytes(a.data.as_slice())),
        };
        let saved7 = match &self.accounts.parent_post_user_interaction_status {
            None => None,
            Some(a) => Some(crate::codec::copy_bytes(a.data.as_slice())),
        };
        let saved8 = match &self.accounts.comment {
            None => None,
            Some(a) => Some(crate::codec::copy_bytes(a.data.as_slice())),
        };
        match self.run() {
            Ok(c) => Ok(c),
            Err(e) => {
                let ghost mid = self@;
                proof {
                    assert forall|i: int| 0 <= i < s.accounts.len() implies mid.accounts[i].key
                        == s.accounts[i].key by {}
                }
                crate::instructions::restore(&mut self.accounts.program_state, saved0);
                crate::instructions::restore(&mut self.accounts.user_account, saved1);
                crate::instructions::restore(&mut self.accounts.post, saved2);
                crate::instructions::restore(&mut self.accounts.account_post, saved3);
                crate::instructions::restore(&mut self.accounts.system_program, saved4);
                crate::instructions::restore(&mut self.accounts.signer, saved5);
                match (self.accounts.parent_post.take(), saved6) {
                    (Some(mut a), Some(d)) => {
                        crate::instructions::restore(&mut a, d);
                        self.accounts.parent_post = Some(a);
                    },
                    (a, _) => {
                        self.accounts.parent_post = a;
                    },
                }
                match (self.accounts.parent_post_user_interaction_status.take(), saved7) {
                    (Some(mut a), Some(d)) => {
                        crate::instructions::restore(&mut a, d);
                        self.accounts.parent_post_user_interaction_status = Some(a);
                    },
                    (a, _) => {
                        self.accounts.parent_post_user_interaction_status = a;
                    },
                }
                match (self.accounts.comment.take(), saved8) {
                    (Some(mut a), Some(d)) => {
                        crate::instructions::restore(&mut a, d);
                        self.accounts.comment = Some(a);
                    },
                    (a, _) => {
                        self.accounts.comment = a;
                    },
                }
                assert(self@.accounts.len() == s.accounts.len());
                assert forall|i: int| 0 <= i < s.accounts.len() implies self@.accounts[i]
                    == s.accounts[i] by {
                    assert(mid.accounts[i].key == s.accounts[i].key);
                }
                assert(self@.accounts =~= s.accounts);
                Err(e)
            },
        }
    }

    /// The accounts, in the order the instruction took them.
    pub fn into_accounts(self) -> (v: Vec<AccountInfo>)
        ensures
            v@.map_values(|a: AccountInfo| a@) == self@.accounts,
    {
        let CreatePost { program_id: _, accounts, args: _ } = self;
        let mut v = vec![
            accounts.program_state,
            accounts.user_account,
            accounts.post,
            accounts.account_post,
            accounts.system_program,
            accounts.signer,
        ];
        match accounts.parent_post {
            None => {},
            Some(p) => {
                v.push(p);
                match accounts.parent_post_user_interaction_status {
                    None => {},
                    Some(st) => {
                        v.push(st);
                        match accounts.comment {
                            None => {},
                            Some(c) => {
                                v.push(c);
                            },
                        }
                    },
                }
            },
        }
        assert(v@.map_values(|a: AccountInfo| a@) =~= self@.accounts);
        v
    }
}

impl Instruction for CreatePost {
    fn validate(&self) -> (r: Result<(), BlawgdError>)
        ensures
            r is Ok,
    {
        self.validate_instruction()
    }

    fn execute(&mut self) -> (r: Result<Vec<PdaCreation>, BlawgdError>)
        ensures
            match create_post_effect(
                old(self)@,
                opt_key_view(old(self).args.parent_post),
                old(self).args.is_repost,
                old(self).args.content@,
            ) {
                Err(e) => r == Err::<Vec<PdaCreation>, BlawgdError>(e) && final(self)@ == old(self)@,
                Ok(eff) => r matches Ok(c) && creations_view(c@) == eff.created && final(self)@
                    == after(old(self)@, eff),
            },
    {
        self.execute_instruction()
    }
}

} // verus!
