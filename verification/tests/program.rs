use blawgd::entrypoint::process_instruction;
use blawgd::instructions::create_post::CreatePost;
use blawgd::error::BlawgdError;
use blawgd::instructions::{
    AccountInfo, BlawgdInstruction, CreatePostArgs, InstantiateArgs, LikePostArgs, PdaCreation,
    UpdateFollowingListArgs, UpdateProfileArgs,
};
use blawgd::state::account::{AccountPost, Profile, UserAccount};
use blawgd::state::address::Pubkey;
use blawgd::state::following::UserFollowingList;
use blawgd::state::post::{Comment, Post, PostUserInteractionStatus};
use blawgd::state::program_state::ProgramState;
use borsh::BorshSerialize;
use std::collections::BTreeSet;

fn key(b: u8) -> Pubkey {
    Pubkey([b; 32])
}

fn sol(k: &Pubkey) -> solana_program::pubkey::Pubkey {
    solana_program::pubkey::Pubkey::new_from_array(k.0)
}

fn digest(text: &str) -> Vec<u8> {
    solana_program::hash::hash(text.as_bytes()).to_bytes().to_vec()
}

fn profile(name: &str, image: &str, bio: &str) -> Profile {
    Profile { name: name.to_string(), image: image.to_string(), bio: bio.to_string() }
}

// ---------------------------------------------------------------------------
// Sizes and seeds.

#[test]
fn spaces_are_fixed() {
    assert_eq!(ProgramState::space(), Ok(32));
    assert_eq!(Profile::space(), Ok(600));
    assert_eq!(UserAccount::space(), Ok(632));
    assert_eq!(Post::space(), Ok(393));
    assert_eq!(PostUserInteractionStatus::space(), Ok(6));
    assert_eq!(AccountPost::space(), Ok(32));
    assert_eq!(Comment::space(), Ok(32));
    assert_eq!(UserFollowingList::space(), Ok(1600));
}

#[test]
fn seeds_hash_their_text() {
    let a = key(7);
    let b = key(9);
    let a58 = sol(&a).to_string();
    let b58 = sol(&b).to_string();
    assert_eq!(ProgramState::seed(), digest("program_state"));
    assert_eq!(Post::seed(12), digest("post-12"));
    assert_eq!(Post::seed(0), digest("post-0"));
    assert_eq!(UserAccount::seed(a), digest(&format!("account-{}", a58)));
    assert_eq!(Profile::seed(a), digest(&format!("profile-{}", a58)));
    assert_eq!(UserFollowingList::seed(a), digest(&format!("following-list-{}", a58)));
    assert_eq!(AccountPost::seed(a, 3), digest(&format!("account-post-{}-3", a58)));
    assert_eq!(
        PostUserInteractionStatus::seed(a, b),
        digest(&format!("post-user-interaction-status-{}-{}", a58, b58))
    );
    assert_eq!(Comment::seed(a, 4), digest(&format!("comment-{}-4", a58)));
    assert_ne!(Post::seed(1), Post::seed(2));
}

// ---------------------------------------------------------------------------
// Layouts, against borsh.

#[test]
fn user_account_layout_is_borsh() {
    let a = UserAccount {
        profile: profile("Johnny", "example image", "eating sugar"),
        post_count: 3,
        follower_count: 1 << 70,
        following_count: 2,
    };
    let mut data = vec![0u8; 632];
    a.serialize(&mut data).unwrap();
    let expected = (
        "Johnny".to_string(),
        "example image".to_string(),
        "eating sugar".to_string(),
        3u128,
        1u128 << 70,
        2u128,
    )
        .try_to_vec()
        .unwrap();
    assert_eq!(&data[..expected.len()], expected.as_slice());
    assert!(data[expected.len()..].iter().all(|b| *b == 0));
    let back = UserAccount::deserialize(&data).unwrap();
    assert_eq!(back.profile.name, "Johnny");
    assert_eq!(back.profile.image, "example image");
    assert_eq!(back.profile.bio, "eating sugar");
    assert_eq!(back.post_count, 3);
    assert_eq!(back.follower_count, 1 << 70);
    assert_eq!(back.following_count, 2);
}

#[test]
fn post_layout_is_borsh() {
    let p = Post {
        parent_post: Some(key(4)),
        creator: key(5),
        content: "Hello World!".to_string(),
        is_repost: true,
        like_count: 1,
        comment_count: 2,
        repost_count: 3,
    };
    let mut data = vec![0u8; 393];
    p.serialize(&mut data).unwrap();
    let expected = (
        Some([4u8; 32]),
        [5u8; 32],
        "Hello World!".to_string(),
        true,
        1u128,
        2u128,
        3u128,
    )
        .try_to_vec()
        .unwrap();
    assert_eq!(&data[..expected.len()], expected.as_slice());
    let back = Post::deserialize(&data).unwrap();
    assert_eq!(back.parent_post.unwrap().0, [4u8; 32]);
    assert_eq!(back.creator.0, [5u8; 32]);
    assert_eq!(back.content, "Hello World!");
    assert!(back.is_repost);
    assert_eq!((back.like_count, back.comment_count, back.repost_count), (1, 2, 3));
}

#[test]
fn status_and_state_layouts_are_borsh() {
    let st = PostUserInteractionStatus { liked: true, commented: false, reposted: true };
    let mut data = vec![0u8; 6];
    st.serialize(&mut data).unwrap();
    assert_eq!(&data[..3], (true, false, true).try_to_vec().unwrap().as_slice());
    let back = PostUserInteractionStatus::deserialize(&data).unwrap();
    assert!(back.liked && !back.commented && back.reposted);

    let state = ProgramState { post_count: 77 };
    assert_eq!(state.try_to_vec().unwrap(), 77u128.try_to_vec().unwrap());
    let mut data = vec![9u8; 20];
    state.serialize(&mut data).unwrap();
    assert_eq!(ProgramState::deserialize(&data).unwrap().post_count, 77);
    assert_eq!(&data[16..], &[9u8, 9, 9, 9]);

    let record = AccountPost { post: key(8) };
    let mut data = vec![0u8; 32];
    record.serialize(&mut data).unwrap();
    assert_eq!(AccountPost::deserialize(&data).unwrap().post.0, [8u8; 32]);
}

#[test]
fn following_list_layout_is_borsh() {
    let mut l = UserFollowingList::default();
    assert!(l.insert(key(3)));
    assert!(l.insert(key(1)));
    assert!(l.insert(key(2)));
    assert!(!l.insert(key(1)));
    assert_eq!(l.len(), 3);
    assert_eq!(l.get(0).0, [1u8; 32]);
    assert_eq!(l.get(2).0, [3u8; 32]);
    let mut data = vec![0u8; 1600];
    l.serialize(&mut data).unwrap();
    let set: BTreeSet<[u8; 32]> = [[3u8; 32], [1u8; 32], [2u8; 32]].into_iter().collect();
    let expected = set.try_to_vec().unwrap();
    assert_eq!(&data[..expected.len()], expected.as_slice());
    let back = UserFollowingList::deserialize(&data).unwrap();
    assert_eq!(back.len(), 3);
    assert!(back.contains(&key(2)));
    assert!(!back.contains(&key(4)));
}

#[test]
fn following_list_reads_unsorted_data_as_a_set() {
    let mut data = 3u32.try_to_vec().unwrap();
    data.extend_from_slice(&[5u8; 32]);
    data.extend_from_slice(&[2u8; 32]);
    data.extend_from_slice(&[5u8; 32]);
    let l = UserFollowingList::deserialize(&data).unwrap();
    assert_eq!(l.len(), 2);
    assert_eq!(l.get(0).0, [2u8; 32]);
    assert_eq!(l.get(1).0, [5u8; 32]);
}

#[test]
fn follow_then_unfollow_gives_the_list_back() {
    let mut l = UserFollowingList::default();
    l.insert(key(4));
    l.insert(key(9));
    assert!(l.insert(key(6)));
    assert!(l.remove(&key(6)));
    assert_eq!(l.len(), 2);
    assert_eq!(l.get(0).0, [4u8; 32]);
    assert_eq!(l.get(1).0, [9u8; 32]);
    assert!(!l.remove(&key(6)));
}

#[test]
fn bad_data_is_refused() {
    assert_eq!(UserAccount::deserialize(&[1, 0, 0]).err(), Some(BlawgdError::BorshIoError));
    assert_eq!(PostUserInteractionStatus::deserialize(&[2, 0, 0]).err(), Some(BlawgdError::BorshIoError));
    assert_eq!(ProgramState::deserialize(&[0u8; 15]).err(), Some(BlawgdError::BorshIoError));
    // A string that is not UTF-8.
    let mut data = 1u32.try_to_vec().unwrap();
    data.push(0xff);
    data.extend_from_slice(&[0u8; 100]);
    assert_eq!(UserAccount::deserialize(&data).err(), Some(BlawgdError::BorshIoError));
    // Too little room to write into.
    let a = UserAccount::default();
    let mut small = vec![0u8; 10];
    assert_eq!(a.serialize(&mut small), Err(BlawgdError::BorshIoError));
    assert_eq!(small, vec![0u8; 10]);
}

#[test]
fn instruction_layout_is_borsh() {
    let ins = BlawgdInstruction::CreatePost(CreatePostArgs {
        parent_post: Some(key(2)),
        is_repost: false,
        content: "hi".to_string(),
    });
    let bytes = ins.try_to_vec().unwrap();
    let expected = (2u8, Some([2u8; 32]), false, "hi".to_string()).try_to_vec().unwrap();
    assert_eq!(bytes, expected);
    match BlawgdInstruction::try_from_slice(&bytes).unwrap() {
        BlawgdInstruction::CreatePost(a) => {
            assert_eq!(a.parent_post.unwrap().0, [2u8; 32]);
            assert!(!a.is_repost);
            assert_eq!(a.content, "hi");
        }
        _ => panic!("wrong instruction"),
    }
    let ins = BlawgdInstruction::UpdateFollowingList(UpdateFollowingListArgs {
        user: key(3),
        add_operation: true,
    });
    assert_eq!(ins.try_to_vec().unwrap(), (3u8, [3u8; 32], true).try_to_vec().unwrap());
    assert_eq!(BlawgdInstruction::LikePost(LikePostArgs {}).try_to_vec().unwrap(), vec![4u8]);
    assert_eq!(BlawgdInstruction::Instantiate(InstantiateArgs {}).try_to_vec().unwrap(), vec![0u8]);
    let ins = BlawgdInstruction::UpdateProfile(UpdateProfileArgs { profile: profile("a", "b", "c") });
    assert_eq!(
        ins.try_to_vec().unwrap(),
        (1u8, "a".to_string(), "b".to_string(), "c".to_string()).try_to_vec().unwrap()
    );
    assert_eq!(BlawgdInstruction::try_from_slice(&[5]).err(), Some(BlawgdError::BorshIoError));
    assert_eq!(BlawgdInstruction::try_from_slice(&[4, 0]).err(), Some(BlawgdError::BorshIoError));
    assert_eq!(BlawgdInstruction::try_from_slice(&[]).err(), Some(BlawgdError::BorshIoError));
}

// ---------------------------------------------------------------------------
// A small runtime: accounts by address, the program run on them, accounts
// created as asked, and every change dropped when anything fails.

struct Chain {
    program_id: Pubkey,
    accounts: Vec<(Pubkey, Vec<u8>)>,
}

fn pda(program_id: &Pubkey, seed: &[u8]) -> Pubkey {
    let (addr, _) = solana_program::pubkey::Pubkey::find_program_address(&[seed], &sol(program_id));
    Pubkey(addr.to_bytes())
}

impl Chain {
    fn new() -> Chain {
        Chain { program_id: key(200), accounts: Vec::new() }
    }

    fn data(&self, k: &Pubkey) -> Vec<u8> {
        self.accounts.iter().find(|(a, _)| a.0 == k.0).map(|(_, d)| d.clone()).unwrap_or_default()
    }

    fn run(&mut self, keys: &[Pubkey], ins: BlawgdInstruction) -> Result<Vec<PdaCreation>, BlawgdError> {
        let data = ins.try_to_vec()?;
        let infos: Vec<AccountInfo> =
            keys.iter().map(|k| AccountInfo { key: *k, data: self.data(k) }).collect();
        let (after, created) = process_instruction(&self.program_id, infos, &data)?;
        for c in &created {
            // The system program refuses to create an account that exists.
            if !self.data(&c.account).is_empty() {
                return Err(BlawgdError::InvalidAccountData);
            }
            assert_eq!(pda(&c.owner, &c.seed).0, c.account.0, "created at its seed's address");
        }
        for a in after {
            self.accounts.retain(|(k, _)| k.0 != a.key.0);
            self.accounts.push((a.key, a.data));
        }
        Ok(created)
    }

    fn state_addr(&self) -> Pubkey {
        pda(&self.program_id, &ProgramState::seed())
    }

    fn user_addr(&self, user: &Pubkey) -> Pubkey {
        pda(&self.program_id, &UserAccount::seed(*user))
    }

    fn post_addr(&self, n: u128) -> Pubkey {
        pda(&self.program_id, &Post::seed(n))
    }

    fn record_addr(&self, user: &Pubkey, n: u128) -> Pubkey {
        pda(&self.program_id, &AccountPost::seed(*user, n))
    }

    fn status_addr(&self, post: &Pubkey, user: &Pubkey) -> Pubkey {
        pda(&self.program_id, &PostUserInteractionStatus::seed(*post, *user))
    }

    fn comment_addr(&self, parent: &Pubkey, n: u128) -> Pubkey {
        pda(&self.program_id, &Comment::seed(*parent, n))
    }

    fn following_addr(&self, user: &Pubkey) -> Pubkey {
        pda(&self.program_id, &UserFollowingList::seed(*user))
    }

    fn instantiate(&mut self, signer: &Pubkey) -> Result<Vec<PdaCreation>, BlawgdError> {
        let keys = [self.state_addr(), key(0), *signer];
        self.run(&keys, BlawgdInstruction::Instantiate(InstantiateArgs {}))
    }

    fn update_profile(&mut self, signer: &Pubkey, p: Profile) -> Result<Vec<PdaCreation>, BlawgdError> {
        let keys = [self.user_addr(signer), key(0), *signer];
        self.run(&keys, BlawgdInstruction::UpdateProfile(UpdateProfileArgs { profile: p }))
    }

    fn account(&self, user: &Pubkey) -> UserAccount {
        UserAccount::deserialize(&self.data(&self.user_addr(user))).unwrap()
    }

    fn post_count(&self) -> u128 {
        ProgramState::deserialize(&self.data(&self.state_addr())).unwrap().post_count
    }

    fn create_post(
        &mut self,
        signer: &Pubkey,
        args: CreatePostArgs,
        with_status: bool,
    ) -> Result<Vec<PdaCreation>, BlawgdError> {
        let total = self.post_count();
        let mine = self.account(signer).post_count;
        let mut keys = vec![
            self.state_addr(),
            self.user_addr(signer),
            self.post_addr(total + 1),
            self.record_addr(signer, mine + 1),
            key(0),
            *signer,
        ];
        if let Some(parent) = args.parent_post {
            keys.push(parent);
            if with_status {
                keys.push(self.status_addr(&parent, signer));
                if !args.is_repost {
                    let n = self.post(&parent).comment_count;
                    keys.push(self.comment_addr(&parent, n + 1));
                }
            }
        }
        self.run(&keys, BlawgdInstruction::CreatePost(args))
    }

    fn post(&self, addr: &Pubkey) -> Post {
        Post::deserialize(&self.data(addr)).unwrap()
    }

    fn status(&self, post: &Pubkey, user: &Pubkey) -> PostUserInteractionStatus {
        PostUserInteractionStatus::deserialize(&self.data(&self.status_addr(post, user))).unwrap()
    }

    fn like(&mut self, signer: &Pubkey, post: &Pubkey) -> Result<Vec<PdaCreation>, BlawgdError> {
        let keys = [*post, self.status_addr(post, signer), key(0), *signer];
        self.run(&keys, BlawgdInstruction::LikePost(LikePostArgs {}))
    }

    fn follow(&mut self, signer: &Pubkey, other: &Pubkey, add: bool) -> Result<Vec<PdaCreation>, BlawgdError> {
        let keys = [
            self.following_addr(signer),
            self.user_addr(signer),
            self.user_addr(other),
            key(0),
            *signer,
        ];
        self.run(
            &keys,
            BlawgdInstruction::UpdateFollowingList(UpdateFollowingListArgs {
                user: *other,
                add_operation: add,
            }),
        )
    }

    fn following(&self, user: &Pubkey) -> UserFollowingList {
        UserFollowingList::deserialize(&self.data(&self.following_addr(user))).unwrap()
    }
}

#[test]
fn basic() {
    let mut chain = Chain::new();
    let user = key(1);
    chain.instantiate(&user).unwrap();
    assert_eq!(chain.post_count(), 0);
    assert!(chain.instantiate(&user).is_err(), "instantiated smart contract twice");

    chain.update_profile(&user, profile("Johnny", "example image", "eating sugar")).unwrap();
    assert_eq!(chain.account(&user).profile.name, "Johnny");
    chain.update_profile(&user, profile("Johnny Boy", "example image", "eating sugar")).unwrap();
    let acc = chain.account(&user);
    assert_eq!(acc.profile.name, "Johnny Boy");
    assert_eq!(acc.profile.image, "example image");
    assert_eq!(acc.profile.bio, "eating sugar");

    let args = CreatePostArgs { parent_post: None, is_repost: false, content: "Hello World!".to_string() };
    chain.create_post(&user, args, true).unwrap();
    let post = chain.post(&chain.post_addr(1));
    assert!(post.parent_post.is_none());
    assert_eq!(post.creator.0, user.0);
    assert_eq!(post.content, "Hello World!");
    assert!(!post.is_repost);
    assert_eq!((post.like_count, post.comment_count, post.repost_count), (0, 0, 0));
}

#[test]
fn basic_functionality() {
    let mut chain = Chain::new();
    let user = key(1);
    let user2 = key(2);
    chain.instantiate(&user).unwrap();
    assert!(chain.instantiate(&user).is_err(), "instantiated smart contract twice");

    chain.update_profile(&user, profile("Johnny", "example image", "eating sugar")).unwrap();
    chain.update_profile(&user, profile("Johnny Boy", "example image", "eating sugar")).unwrap();
    assert_eq!(chain.account(&user).profile.name, "Johnny Boy");

    let created = chain
        .create_post(
            &user,
            CreatePostArgs { parent_post: None, is_repost: false, content: "Hello World!".to_string() },
            true,
        )
        .unwrap();
    assert_eq!(created.len(), 2);
    assert_eq!(created[0].seed, Post::seed(1));
    assert_eq!(created[0].space, 393);
    assert_eq!(created[1].seed, AccountPost::seed(user, 1));
    assert_eq!(created[1].space, 32);
    let post_addr = chain.post_addr(1);
    assert_eq!(chain.post_count(), 1);
    assert_eq!(chain.account(&user).post_count, 1);
    let record = AccountPost::deserialize(&chain.data(&chain.record_addr(&user, 1))).unwrap();
    assert_eq!(record.post.0, post_addr.0);

    chain
        .create_post(
            &user,
            CreatePostArgs {
                parent_post: Some(post_addr),
                is_repost: false,
                content: "commenting on 'Hello World!'".to_string(),
            },
            true,
        )
        .unwrap();
    let comment = chain.post(&chain.post_addr(2));
    assert_eq!(comment.parent_post.unwrap().0, post_addr.0);
    assert_eq!(comment.content, "commenting on 'Hello World!'");
    assert_eq!(chain.post(&post_addr).comment_count, 1);
    assert!(chain.status(&post_addr, &user).commented);
    let record = Comment::deserialize(&chain.data(&chain.comment_addr(&post_addr, 1))).unwrap();
    assert_eq!(record.post.0, chain.post_addr(2).0);

    chain
        .create_post(
            &user,
            CreatePostArgs {
                parent_post: Some(post_addr),
                is_repost: true,
                content: "reposting 'Hello World!'".to_string(),
            },
            true,
        )
        .unwrap();
    let parent = chain.post(&post_addr);
    assert_eq!((parent.comment_count, parent.repost_count), (1, 1));
    let st = chain.status(&post_addr, &user);
    assert!(st.commented && st.reposted && !st.liked);
    assert_eq!(chain.post_count(), 3);
    assert_eq!(chain.account(&user).post_count, 3);

    let created = chain.like(&user, &post_addr).unwrap();
    assert!(created.is_empty(), "the status exists already");
    assert_eq!(chain.post(&post_addr).like_count, 1);
    assert!(chain.status(&post_addr, &user).liked);

    chain.update_profile(&user2, profile("Bob", "example image", "The builder")).unwrap();
    chain.follow(&user, &user2, true).unwrap();
    assert_eq!(chain.account(&user).following_count, 1);
    assert_eq!(chain.account(&user2).follower_count, 1);
    assert!(chain.following(&user).contains(&user2));
    chain.follow(&user, &user2, false).unwrap();
    assert_eq!(chain.account(&user).following_count, 0);
    assert_eq!(chain.account(&user2).follower_count, 0);
    assert!(!chain.following(&user).contains(&user2));
    assert_eq!(chain.following(&user).len(), 0);
}

#[test]
fn like_needs_the_users_status() {
    let mut chain = Chain::new();
    let user = key(1);
    chain.instantiate(&user).unwrap();
    chain.update_profile(&user, profile("a", "b", "c")).unwrap();
    chain
        .create_post(&user, CreatePostArgs { parent_post: None, is_repost: false, content: "x".to_string() }, true)
        .unwrap();
    let post_addr = chain.post_addr(1);
    // No status of the user on the post yet: nothing to read.
    assert_eq!(chain.like(&user, &post_addr).unwrap_err(), BlawgdError::BorshIoError);
    assert_eq!(chain.post(&post_addr).like_count, 0);
    // Commenting makes the status; then the like goes through.
    chain
        .create_post(
            &user,
            CreatePostArgs { parent_post: Some(post_addr), is_repost: false, content: "y".to_string() },
            true,
        )
        .unwrap();
    let created = chain.like(&user, &post_addr).unwrap();
    assert!(created.is_empty());
    let st = chain.status(&post_addr, &user);
    assert!(st.liked && st.commented && !st.reposted);
    // A second like by the same user is refused.
    assert_eq!(chain.like(&user, &post_addr).unwrap_err(), BlawgdError::AlreadyLiked);
    assert_eq!(chain.post(&post_addr).like_count, 1);
}

#[test]
fn comment_on_a_repost_is_refused() {
    let mut chain = Chain::new();
    let user = key(1);
    chain.instantiate(&user).unwrap();
    chain.update_profile(&user, profile("a", "b", "c")).unwrap();
    chain
        .create_post(&user, CreatePostArgs { parent_post: None, is_repost: false, content: "x".to_string() }, true)
        .unwrap();
    let post_addr = chain.post_addr(1);
    chain
        .create_post(&user, CreatePostArgs { parent_post: Some(post_addr), is_repost: true, content: "r".to_string() }, true)
        .unwrap();
    let repost_addr = chain.post_addr(2);
    let r = chain.create_post(
        &user,
        CreatePostArgs { parent_post: Some(repost_addr), is_repost: false, content: "c".to_string() },
        true,
    );
    assert_eq!(r.unwrap_err(), BlawgdError::CommentOnRepost);
    assert_eq!(chain.post_count(), 2);
    assert_eq!(chain.post(&repost_addr).comment_count, 0);
}

#[test]
fn following_twice_changes_nothing() {
    let mut chain = Chain::new();
    let a = key(1);
    let b = key(2);
    chain.update_profile(&a, profile("a", "", "")).unwrap();
    chain.update_profile(&b, profile("b", "", "")).unwrap();
    let created = chain.follow(&a, &b, true).unwrap();
    assert_eq!(created.len(), 1);
    assert_eq!(created[0].space, 1600);
    assert!(chain.follow(&a, &b, true).unwrap().is_empty());
    assert_eq!(chain.account(&a).following_count, 1);
    assert_eq!(chain.following(&a).len() as u128, chain.account(&a).following_count);
    assert_eq!(chain.account(&b).follower_count, 1);
    chain.follow(&a, &b, false).unwrap();
    chain.follow(&a, &b, false).unwrap();
    assert_eq!(chain.account(&a).following_count, 0);
    assert_eq!(chain.account(&b).follower_count, 0);
}

#[test]
fn comment_asks_for_its_record() {
    let mut chain = Chain::new();
    let user = key(1);
    chain.instantiate(&user).unwrap();
    chain.update_profile(&user, profile("a", "b", "c")).unwrap();
    chain
        .create_post(&user, CreatePostArgs { parent_post: None, is_repost: false, content: "x".to_string() }, true)
        .unwrap();
    let parent = chain.post_addr(1);
    let created = chain
        .create_post(
            &user,
            CreatePostArgs { parent_post: Some(parent), is_repost: false, content: "y".to_string() },
            true,
        )
        .unwrap();
    assert_eq!(created.len(), 4);
    assert_eq!(created[2].seed, PostUserInteractionStatus::seed(parent, user));
    assert_eq!(created[3].seed, Comment::seed(parent, 1));
    assert_eq!(created[3].space, 32);
    assert_eq!(created[3].account.0, chain.comment_addr(&parent, 1).0);
    assert_eq!(created[3].payer.0, user.0);
    let record = Comment::deserialize(&chain.data(&chain.comment_addr(&parent, 1))).unwrap();
    assert_eq!(record.post.0, chain.post_addr(2).0);
}

#[test]
fn comment_without_record_account_is_still_written() {
    let mut chain = Chain::new();
    let user = key(1);
    chain.instantiate(&user).unwrap();
    chain.update_profile(&user, profile("a", "b", "c")).unwrap();
    chain
        .create_post(&user, CreatePostArgs { parent_post: None, is_repost: false, content: "x".to_string() }, true)
        .unwrap();
    let parent = chain.post_addr(1);
    let keys = vec![
        chain.state_addr(),
        chain.user_addr(&user),
        chain.post_addr(2),
        chain.record_addr(&user, 2),
        key(0),
        user,
        parent,
        chain.status_addr(&parent, &user),
    ];
    let created = chain
        .run(
            &keys,
            BlawgdInstruction::CreatePost(CreatePostArgs {
                parent_post: Some(parent),
                is_repost: false,
                content: "y".to_string(),
            }),
        )
        .unwrap();
    assert_eq!(created.len(), 3);
    assert_eq!(chain.post(&parent).comment_count, 1);
    assert!(chain.data(&chain.comment_addr(&parent, 1)).is_empty());
}

#[test]
fn comment_without_status_account_is_refused() {
    let mut chain = Chain::new();
    let user = key(1);
    chain.instantiate(&user).unwrap();
    chain.update_profile(&user, profile("a", "b", "c")).unwrap();
    chain
        .create_post(&user, CreatePostArgs { parent_post: None, is_repost: false, content: "x".to_string() }, true)
        .unwrap();
    let parent = chain.post_addr(1);
    let r = chain.create_post(
        &user,
        CreatePostArgs { parent_post: Some(parent), is_repost: false, content: "y".to_string() },
        false,
    );
    assert_eq!(r.err(), Some(BlawgdError::InvalidAccountData));
    assert_eq!(chain.post_count(), 1, "nothing was kept");
}

#[test]
fn too_few_accounts_are_refused() {
    let data = BlawgdInstruction::LikePost(LikePostArgs {}).try_to_vec().unwrap();
    let accounts = vec![
        AccountInfo { key: key(1), data: vec![] },
        AccountInfo { key: key(2), data: vec![] },
    ];
    let r = process_instruction(&key(9), accounts, &data);
    assert_eq!(r.err(), Some(BlawgdError::NotEnoughAccountKeys));
    let r = process_instruction(&key(9), vec![], &[7u8]);
    assert_eq!(r.err(), Some(BlawgdError::BorshIoError));
}

#[test]
fn posting_without_an_account_is_refused() {
    let mut chain = Chain::new();
    let user = key(1);
    chain.instantiate(&user).unwrap();
    let keys = [chain.state_addr(), chain.user_addr(&user), key(50), key(51), key(0), user];
    let r = chain.run(
        &keys,
        BlawgdInstruction::CreatePost(CreatePostArgs { parent_post: None, is_repost: false, content: "x".to_string() }),
    );
    assert_eq!(r.err(), Some(BlawgdError::BorshIoError));
}

#[test]
fn like_count_overflow_is_refused() {
    let post = Post {
        parent_post: None,
        creator: key(1),
        content: String::new(),
        is_repost: false,
        like_count: u128::MAX,
        comment_count: 0,
        repost_count: 0,
    };
    let mut post_data = vec![0u8; 393];
    post.serialize(&mut post_data).unwrap();
    let accounts = vec![
        AccountInfo { key: key(10), data: post_data },
        AccountInfo { key: key(11), data: vec![0u8; 6] },
        AccountInfo { key: key(0), data: vec![] },
        AccountInfo { key: key(1), data: vec![] },
    ];
    let data = BlawgdInstruction::LikePost(LikePostArgs {}).try_to_vec().unwrap();
    let r = process_instruction(&key(9), accounts, &data);
    assert_eq!(r.err(), Some(BlawgdError::ArithmeticOverflow));
}

#[test]
fn unfollowing_with_zero_counters_is_refused() {
    let me = UserAccount::default();
    let mut my_data = vec![0u8; 632];
    me.serialize(&mut my_data).unwrap();
    let mut list = UserFollowingList::default();
    list.insert(key(2));
    let mut list_data = vec![0u8; 1600];
    list.serialize(&mut list_data).unwrap();
    let accounts = vec![
        AccountInfo { key: key(10), data: list_data },
        AccountInfo { key: key(11), data: my_data.clone() },
        AccountInfo { key: key(12), data: my_data },
        AccountInfo { key: key(0), data: vec![] },
        AccountInfo { key: key(1), data: vec![] },
    ];
    let data = BlawgdInstruction::UpdateFollowingList(UpdateFollowingListArgs { user: key(2), add_operation: false })
        .try_to_vec()
        .unwrap();
    let r = process_instruction(&key(9), accounts, &data);
    assert_eq!(r.err(), Some(BlawgdError::ArithmeticOverflow));
}

#[test]
fn a_failed_run_leaves_the_accounts_as_they_were() {
    let mut chain = Chain::new();
    let user = key(1);
    chain.instantiate(&user).unwrap();
    chain.update_profile(&user, profile("a", "b", "c")).unwrap();
    chain
        .create_post(&user, CreatePostArgs { parent_post: None, is_repost: false, content: "x".to_string() }, true)
        .unwrap();
    let parent = chain.post_addr(1);
    let keys = vec![
        chain.state_addr(),
        chain.user_addr(&user),
        chain.post_addr(2),
        chain.record_addr(&user, 2),
        key(0),
        user,
        parent,
    ];
    let before: Vec<Vec<u8>> = keys.iter().map(|k| chain.data(k)).collect();
    let infos: Vec<AccountInfo> = keys.iter().map(|k| AccountInfo { key: *k, data: chain.data(k) }).collect();
    let args = CreatePostArgs { parent_post: Some(parent), is_repost: false, content: "y".to_string() };
    let mut ins = CreatePost::new(chain.program_id, infos, args).unwrap();
    assert_eq!(ins.execute_instruction().err(), Some(BlawgdError::InvalidAccountData));
    let after: Vec<Vec<u8>> = ins.into_accounts().into_iter().map(|a| a.data).collect();
    assert_eq!(after, before);
}
