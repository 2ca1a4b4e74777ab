//! The instructions of the program: how their data is laid out, which
//! accounts each reads, and what each does to the accounts' data.
//!
//! An account is modelled by its address and its data.  Creating a
//! program-owned account is work for the runtime: an instruction asks for it
//! with a [`PdaCreation`], and from then on treats the account's data as the
//! zeroed bytes the runtime gives a new account.
use crate::codec::{
    overwrite, enc_bool, enc_key, enc_opt_key, enc_str, lemma_bool_roundtrip, lemma_key_roundtrip,
    lemma_opt_key_roundtrip, lemma_str_roundtrip, parse_bool, parse_key, parse_opt_key, parse_str,
    read_bool, read_key, read_opt_key, read_str, read_u8, str_fits, write_bool, write_opt_key,
    write_raw, write_str,
};
use crate::error::BlawgdError;
use crate::state::account::{enc_profile, lemma_profile_roundtrip, parse_profile, Profile, ProfileData, profile_fits};
use crate::state::address::Pubkey;
use crate::state::post::opt_key_view;
use vstd::prelude::*;

pub mod create_post;
pub mod instantiate;
pub mod like_post;
pub mod update_following_list;
pub mod update_profile;

verus! {

/// An account passed to an instruction: its address and its data.
#[derive(Debug)]
pub struct AccountInfo {
    pub key: Pubkey,
    pub data: Vec<u8>,
}

/// The content of an [`AccountInfo`].
pub struct AccountData {
    pub key: Seq<u8>,
    pub data: Seq<u8>,
}

impl View for AccountInfo {
    type V = AccountData;

    open spec fn view(&self) -> AccountData {
        AccountData { key: self.key@, data: self.data@ }
    }
}

/// The views of a sequence of accounts.
pub open spec fn accounts_view(v: Seq<AccountInfo>) -> Seq<AccountData> {
    v.map_values(|a: AccountInfo| a@)
}

/// A request to the runtime: create the account `account`, owned by
/// `owner`, paid for by `payer`, holding `space` zeroed bytes, at the address
/// that `seed` derives.
/// The account must not exist yet: the runtime refuses to create one that
/// does, and the whole instruction then fails.
#[derive(Debug)]
pub struct PdaCreation {
    pub owner: Pubkey,
    pub payer: Pubkey,
    pub account: Pubkey,
    pub space: usize,
    pub seed: Vec<u8>,
}

/// The content of a [`PdaCreation`].
pub struct PdaCreationData {
    pub owner: Seq<u8>,
    pub payer: Seq<u8>,
    pub account: Seq<u8>,
    pub space: nat,
    pub seed: Seq<u8>,
}

impl View for PdaCreation {
    type V = PdaCreationData;

    open spec fn view(&self) -> PdaCreationData {
        PdaCreationData {
            owner: self.owner@,
            payer: self.payer@,
            account: self.account@,
            space: self.space as nat,
            seed: self.seed@,
        }
    }
}

/// The views of a sequence of requests.
pub open spec fn creations_view(v: Seq<PdaCreation>) -> Seq<PdaCreationData> {
    v.map_values(|c: PdaCreation| c@)
}

/// `n` zero bytes: the data of a newly created account.
pub open spec fn zeros(n: nat) -> Seq<u8> {
    Seq::new(n, |i: int| 0u8)
}

/// What an instruction works on: the program's address and its accounts,
/// in the order the instruction takes them.
pub struct InstructionState {
    pub program_id: Seq<u8>,
    pub accounts: Seq<AccountData>,
}

/// What a successful instruction leaves: the new data of each of its
/// accounts, in order, and the accounts it asked the runtime to create.
pub struct Effect {
    pub data: Seq<Seq<u8>>,
    pub created: Seq<PdaCreationData>,
}

/// The accounts with their data replaced by `data`, keys unchanged.
pub open spec fn applied(accounts: Seq<AccountData>, data: Seq<Seq<u8>>) -> Seq<AccountData> {
    Seq::new(accounts.len(), |i: int| AccountData { key: accounts[i].key, data: data[i] })
}

/// The state after an effect.
pub open spec fn after(s: InstructionState, e: Effect) -> InstructionState {
    InstructionState { program_id: s.program_id, accounts: applied(s.accounts, e.data) }
}

/// What serialising `bytes` into an account's data gives: the data with its
/// front overwritten, or nothing when they do not fit.
pub open spec fn written(data: Seq<u8>, bytes: Seq<u8>) -> Option<Seq<u8>> {
    if bytes.len() <= data.len() {
        Some(overwrite(data, bytes))
    } else {
        None
    }
}

/// The data an account holds once it exists: its own when it has any, else
/// the `space` zeroed bytes of a new account.
pub open spec fn existing_or_new(data: Seq<u8>, space: nat) -> Seq<u8> {
    if data.len() == 0 {
        zeros(space)
    } else {
        data
    }
}

/// The request to create `account` for the program, paid by `payer`.
pub open spec fn pda(
    program_id: Seq<u8>,
    payer: Seq<u8>,
    account: Seq<u8>,
    space: nat,
    seed: Seq<u8>,
) -> PdaCreationData {
    PdaCreationData { owner: program_id, payer, account, space, seed }
}

/// Puts back the data an account held before a failed run.
pub fn restore(account: &mut AccountInfo, saved: Vec<u8>)
    ensures
        final(account).key == old(account).key,
        final(account).data@ == saved@,
{
    account.data = saved;
}

/// Zeroed data of `n` bytes.
pub fn zeroed(n: usize) -> (v: Vec<u8>)
    ensures
        v@ == zeros(n as nat),
{
    let mut v: Vec<u8> = Vec::new();
    let mut i: usize = 0;
    while i < n
        invariant
            i <= n,
            v@ == zeros(i as nat),
        decreases n - i,
    {
        v.push(0u8);
        i = i + 1;
        assert(v@ =~= zeros(i as nat));
    }
    v
}

/// Asks for `account` to be created as a program-owned account of `space`
/// bytes, paid by `payer`, and gives `account` the zeroed data it will then
/// hold.
pub fn create_pda(
    program_id: &Pubkey,
    space: usize,
    payer: &AccountInfo,
    account: &mut AccountInfo,
    seed: Vec<u8>,
    created: &mut Vec<PdaCreation>,
)
    ensures
        final(account).key == old(account).key,
        final(account).data@ == zeros(space as nat),
        creations_view(final(created)@) == creations_view(old(created)@).push(
            pda(program_id@, payer.key@, old(account).key@, space as nat, seed@),
        ),
{
    account.data = zeroed(space);
    let ghost before = created@;
    created.push(PdaCreation { owner: *program_id, payer: payer.key, account: account.key, space, seed });
    assert(creations_view(created@) =~= creations_view(before).push(
        pda(program_id@, payer.key@, account.key@, space as nat, seed@),
    ));
}

/// Takes the next account off the front of the list, or fails with
/// `NotEnoughAccountKeys`, as reading past the last account does.
pub fn next_account_info(accounts: &mut Vec<AccountInfo>) -> (r: Result<AccountInfo, BlawgdError>)
    ensures
        old(accounts)@.len() == 0 ==> r == Err::<AccountInfo, BlawgdError>(
            BlawgdError::NotEnoughAccountKeys,
        ),
        old(accounts)@.len() == 0 ==> final(accounts)@ == old(accounts)@,
        old(accounts)@.len() > 0 ==> r == Ok::<AccountInfo, BlawgdError>(old(accounts)@[0]),
        old(accounts)@.len() > 0 ==> final(accounts)@ == old(accounts)@.drop_first(),
{
    if accounts.len() == 0 {
        return Err(BlawgdError::NotEnoughAccountKeys);
    }
    let a = accounts.remove(0);
    assert(old(accounts)@.remove(0) =~= old(accounts)@.drop_first());
    Ok(a)
}

/// Takes the next account off the front of the list, when there is one.
pub fn next_optional_account(accounts: &mut Vec<AccountInfo>) -> (r: Option<AccountInfo>)
    ensures
        old(accounts)@.len() == 0 ==> r is None,
        old(accounts)@.len() == 0 ==> final(accounts)@ == old(accounts)@,
        old(accounts)@.len() > 0 ==> r == Some(old(accounts)@[0]),
        old(accounts)@.len() > 0 ==> final(accounts)@ == old(accounts)@.drop_first(),
{
    if accounts.len() == 0 {
        return None;
    }
    let a = accounts.remove(0);
    assert(old(accounts)@.remove(0) =~= old(accounts)@.drop_first());
    Some(a)
}

/// What every instruction offers: a check before it runs, and the run,
/// which gives the accounts that the runtime is to create.
pub trait Instruction {
    fn validate(&self) -> Result<(), BlawgdError>;

    fn execute(&mut self) -> Result<Vec<PdaCreation>, BlawgdError>;
}

/// The arguments of `Instantiate`: none.
#[derive(Clone, Copy, PartialEq, Eq, Structural, Debug)]
pub struct InstantiateArgs {}

/// The arguments of `UpdateProfile`: the new profile.
#[derive(Debug)]
pub struct UpdateProfileArgs {
    pub profile: Profile,
}

impl Clone for UpdateProfileArgs {
    fn clone(&self) -> (a: Self)
        ensures
            a.profile@ == self.profile@,
    {
        UpdateProfileArgs { profile: self.profile.clone() }
    }
}

/// The arguments of `CreatePost`: the post answered, if any, whether this
/// is a repost of it, and the text.
#[derive(Debug)]
pub struct CreatePostArgs {
    pub parent_post: Option<Pubkey>,
    pub is_repost: bool,
    pub content: String,
}

impl Clone for CreatePostArgs {
    fn clone(&self) -> (a: Self)
        ensures
            a.parent_post == self.parent_post,
            a.is_repost == self.is_repost,
            a.content@ == self.content@,
    {
        CreatePostArgs {
            parent_post: self.parent_post,
            is_repost: self.is_repost,
            content: self.content.clone(),
        }
    }
}

/// The arguments of `UpdateFollowingList`: whom, and whether to follow
/// (`true`) or to stop following (`false`).
#[derive(Clone, Copy, Debug)]
pub struct UpdateFollowingListArgs {
    pub user: Pubkey,
    pub add_operation: bool,
}

/// The arguments of `LikePost`: none.
#[derive(Clone, Copy, PartialEq, Eq, Structural, Debug)]
pub struct LikePostArgs {}

/// An instruction as its data names it.
#[derive(Debug)]
pub enum BlawgdInstruction {
    Instantiate(InstantiateArgs),
    UpdateProfile(UpdateProfileArgs),
    CreatePost(CreatePostArgs),
    UpdateFollowingList(UpdateFollowingListArgs),
    LikePost(LikePostArgs),
}

/// The content of a [`BlawgdInstruction`].
pub enum InstructionData {
    Instantiate,
    UpdateProfile { profile: ProfileData },
    CreatePost { parent_post: Option<Seq<u8>>, is_repost: bool, content: Seq<char> },
    UpdateFollowingList { user: Seq<u8>, add_operation: bool },
    LikePost,
}

impl View for BlawgdInstruction {
    type V = InstructionData;

    open spec fn view(&self) -> InstructionData {
        match self {
            BlawgdInstruction::Instantiate(_) => InstructionData::Instantiate,
            BlawgdInstruction::UpdateProfile(a) => InstructionData::UpdateProfile {
                profile: a.profile@,
            },
            BlawgdInstruction::CreatePost(a) => InstructionData::CreatePost {
                parent_post: opt_key_view(a.parent_post),
                is_repost: a.is_repost,
                content: a.content@,
            },
            BlawgdInstruction::UpdateFollowingList(a) => InstructionData::UpdateFollowingList {
                user: a.user@,
                add_operation: a.add_operation,
            },
            BlawgdInstruction::LikePost(_) => InstructionData::LikePost,
        }
    }
}

/// Whether the texts of an instruction fit their length prefixes and its
/// addresses are 32 bytes long.
pub open spec fn instruction_wf(i: InstructionData) -> bool {
    match i {
        InstructionData::UpdateProfile { profile } => profile_fits(profile),
        InstructionData::CreatePost { parent_post, content, .. } => str_fits(content) && (
        parent_post matches Some(k) ==> k.len() == 32),
        InstructionData::UpdateFollowingList { user, .. } => user.len() == 32,
        _ => true,
    }
}

/// The layout of an instruction: the variant's index as one byte, then its
/// arguments field by field.
pub open spec fn enc_instruction(i: InstructionData) -> Seq<u8> {
    match i {
        InstructionData::Instantiate => seq![0u8],
        InstructionData::UpdateProfile { profile } => seq![1u8] + enc_profile(profile),
        InstructionData::CreatePost { parent_post, is_repost, content } => seq![2u8]
            + enc_opt_key(parent_post) + enc_bool(is_repost) + enc_str(content),
        InstructionData::UpdateFollowingList { user, add_operation } => seq![3u8] + enc_key(user)
            + enc_bool(add_operation),
        InstructionData::LikePost => seq![4u8],
    }
}

/// The arguments of the variant with index `tag`, read from `s`.
pub open spec fn parse_instruction_args(tag: u8, s: Seq<u8>) -> Option<(InstructionData, Seq<u8>)> {
    if tag == 0 {
        Some((InstructionData::Instantiate, s))
    } else if tag == 1 {
        match parse_profile(s) {
            None => None,
            Some((profile, r)) => Some((InstructionData::UpdateProfile { profile }, r)),
        }
    } else if tag == 2 {
        match parse_opt_key(s) {
            None => None,
            Some((parent_post, r1)) => match parse_bool(r1) {
                None => None,
                Some((is_repost, r2)) => match parse_str(r2) {
                    None => None,
                    Some((content, r3)) => Some(
                        (InstructionData::CreatePost { parent_post, is_repost, content }, r3),
                    ),
                },
            },
        }
    } else if tag == 3 {
        match parse_key(s) {
            None => None,
            Some((user, r1)) => match parse_bool(r1) {
                None => None,
                Some((add_operation, r2)) => Some(
                    (InstructionData::UpdateFollowingList { user, add_operation }, r2),
                ),
            },
        }
    } else if tag == 4 {
        Some((InstructionData::LikePost, s))
    } else {
        None
    }
}

/// The instruction that the whole of `s` lays out; nothing may follow it.
pub open spec fn parse_instruction(s: Seq<u8>) -> Option<InstructionData> {
    if s.len() == 0 {
        None
    } else {
        match parse_instruction_args(s[0], s.drop_first()) {
            None => None,
            Some((i, rest)) => if rest.len() == 0 {
                Some(i)
            } else {
                None
            },
        }
    }
}

/// An instruction written out reads back as the same instruction.
pub proof fn law_instruction_reads_back(i: InstructionData)
    requires
        instruction_wf(i),
    ensures
        parse_instruction(enc_instruction(i)) == Some(i),
{
    let e = Seq::<u8>::empty();
    let s = enc_instruction(i);
    match i {
        InstructionData::Instantiate => {
            assert(s.drop_first() =~= e);
        },
        InstructionData::UpdateProfile { profile } => {
            assert(s.drop_first() =~= enc_profile(profile) + e);
            lemma_profile_roundtrip(profile, e);
        },
        InstructionData::CreatePost { parent_post, is_repost, content } => {
            let c2 = enc_str(content) + e;
            let c1 = enc_bool(is_repost) + c2;
            assert(s.drop_first() =~= enc_opt_key(parent_post) + c1);
            lemma_opt_key_roundtrip(parent_post, c1);
            lemma_bool_roundtrip(is_repost, c2);
            lemma_str_roundtrip(content, e);
        },
        InstructionData::UpdateFollowingList { user, add_operation } => {
            let c1 = enc_bool(add_operation) + e;
            assert(s.drop_first() =~= enc_key(user) + c1);
            lemma_key_roundtrip(user, c1);
            lemma_bool_roundtrip(add_operation, e);
        },
        InstructionData::LikePost => {
            assert(s.drop_first() =~= e);
        },
    }
}

impl BlawgdInstruction {
    /// Reads an instruction from the whole of `data`.
    pub fn try_from_slice(data: &[u8]) -> (r: Result<BlawgdInstruction, BlawgdError>)
        ensures
            match parse_instruction(data@) {
                None => r == Err::<BlawgdInstruction, BlawgdError>(BlawgdError::BorshIoError),
                Some(i) => r matches Ok(x) && x@ == i,
            },
    {
        assert(data@.skip(0) =~= data@);
        let (tag, p) = match read_u8(data, 0) {
            None => { return Err(BlawgdError::BorshIoError); },
            Some(x) => x,
        };
        assert(data@.skip(1) =~= data@.drop_first());
        let (ins, q) = if tag == 0 {
            (BlawgdInstruction::Instantiate(InstantiateArgs {}), p)
        } else if tag == 1 {
            match Profile::read_from(data, p) {
                None => { return Err(BlawgdError::BorshIoError); },
                Some((profile, q)) => (
                    BlawgdInstruction::UpdateProfile(UpdateProfileArgs { profile }),
                    q,
                ),
            }
        } else if tag == 2 {
            let (parent, p1) = match read_opt_key(data, p) {
                None => { return Err(BlawgdError::BorshIoError); },
                Some(x) => x,
            };
            let (is_repost, p2) = match read_bool(data, p1) {
                None => { return Err(BlawgdError::BorshIoError); },
                Some(x) => x,
            };
            let (content, p3) = match read_str(data, p2) {
                None => { return Err(BlawgdError::BorshIoError); },
                Some(x) => x,
            };
            let parent_post = match parent {
                None => None,
                Some(k) => Some(Pubkey(k)),
            };
            (BlawgdInstruction::CreatePost(CreatePostArgs { parent_post, is_repost, content }), p3)
        } else if tag == 3 {
            let (user, p1) = match read_key(data, p) {
                None => { return Err(BlawgdError::BorshIoError); },
                Some(x) => x,
            };
            let (add_operation, p2) = match read_bool(data, p1) {
                None => { return Err(BlawgdError::BorshIoError); },
                Some(x) => x,
            };
            (
                BlawgdInstruction::UpdateFollowingList(
                    UpdateFollowingListArgs { user: Pubkey(user), add_operation },
                ),
                p2,
            )
        } else if tag == 4 {
            (BlawgdInstruction::LikePost(LikePostArgs {}), p)
        } else {
            return Err(BlawgdError::BorshIoError);
        };
        if q != data.len() {
            return Err(BlawgdError::BorshIoError);
        }
        Ok(ins)
    }

    /// The layout of the instruction; fails when a text is too long.
    pub fn try_to_vec(&self) -> (r: Result<Vec<u8>, BlawgdError>)
        ensures
            r is Ok <==> instruction_wf(self@),
            r matches Ok(v) ==> v@ == enc_instruction(self@),
            r is Err ==> r == Err::<Vec<u8>, BlawgdError>(BlawgdError::BorshIoError),
    {
        let mut out: Vec<u8> = Vec::new();
        match self {
            BlawgdInstruction::Instantiate(_) => {
                out.push(0u8);
            },
            BlawgdInstruction::UpdateProfile(a) => {
                out.push(1u8);
                if !a.profile.write_to(&mut out) {
                    return Err(BlawgdError::BorshIoError);
                }
            },
            BlawgdInstruction::CreatePost(a) => {
                out.push(2u8);
                write_opt_key(&mut out, &match a.parent_post {
                    None => None,
                    Some(k) => Some(k.0),
                });
                write_bool(&mut out, a.is_repost);
                if !write_str(&mut out, a.content.as_str()) {
                    return Err(BlawgdError::BorshIoError);
                }
            },
            BlawgdInstruction::UpdateFollowingList(a) => {
                out.push(3u8);
                write_raw(&mut out, a.user.0.as_slice());
                write_bool(&mut out, a.add_operation);
            },
            BlawgdInstruction::LikePost(_) => {
                out.push(4u8);
            },
        }
        assert(out@ =~= enc_instruction(self@));
        Ok(out)
    }
}

} // verus!
