//! What holds of the program across calls: state written into an account
//! reads back as written, and each instruction changes what it reads in the
//! way its name says.
use crate::codec::{
    enc_key, enc_u128, lemma_key_roundtrip, lemma_u128_roundtrip, overwrite, parse_key,
    parse_u128,
};
use crate::instructions::create_post::{
    account_post_seed, answered_post, answered_status, create_post_core_effect,
    create_post_effect, new_post, parent_effect, post_seed,
};
use crate::instructions::instantiate::instantiate_effect;
use crate::instructions::like_post::{like_post_effect, liked_post, status_or_fresh};
use crate::instructions::update_following_list::{
    follow_changes, followed_list, following_or_empty, step_overflows, stepped,
    update_following_list_effect,
};
use crate::instructions::update_profile::{update_profile_effect, user_account_or_default};
use crate::instructions::{after, pda, InstructionState};
use crate::state::account::{
    enc_user_account, lemma_parse_user_account_fits, lemma_user_account_roundtrip,
    parse_user_account, profile_fits, ProfileData, UserAccountData,
};
use crate::state::following::{
    enc_following, insert_key, lemma_following_roundtrip, lemma_insert_sorted,
    lemma_insert_then_remove, lemma_parse_following_wf, lemma_remove_len, lemma_remove_sorted, parse_following, remove_key, sorted_keys,
};
use crate::state::post::{
    comment_seed, enc_post, enc_status, lemma_parse_post_wf, lemma_post_roundtrip,
    lemma_status_roundtrip, parse_post, parse_status, post_keys_wf, PostData, PostUserInteractionStatus,
};
use crate::codec::str_fits;
use vstd::prelude::*;

verus! {

// ---------------------------------------------------------------------------
// Reading back what was written.
/// A user account written over an account's data reads back as written.
pub proof fn law_user_account_read_back(a: UserAccountData, data: Seq<u8>)
    requires
        profile_fits(a.profile),
        enc_user_account(a).len() <= data.len(),
    ensures
        parse_user_account(overwrite(data, enc_user_account(a))) == Some(
            (a, data.skip(enc_user_account(a).len() as int)),
        ),
{
    lemma_user_account_roundtrip(a, data.skip(enc_user_account(a).len() as int));
}

/// A post written over an account's data reads back as written.
pub proof fn law_post_read_back(p: PostData, data: Seq<u8>)
    requires
        post_keys_wf(p),
        str_fits(p.content),
        enc_post(p).len() <= data.len(),
    ensures
        parse_post(overwrite(data, enc_post(p))) == Some((p, data.skip(enc_post(p).len() as int))),
{
    lemma_post_roundtrip(p, data.skip(enc_post(p).len() as int));
}

/// A status written over an account's data reads back as written.
pub proof fn law_status_read_back(st: PostUserInteractionStatus, data: Seq<u8>)
    requires
        enc_status(st).len() <= data.len(),
    ensures
        parse_status(overwrite(data, enc_status(st))) == Some(
            (st, data.skip(enc_status(st).len() as int)),
        ),
{
    lemma_status_roundtrip(st, data.skip(enc_status(st).len() as int));
}

/// A post count written over an account's data reads back as written.
pub proof fn law_post_count_read_back(n: u128, data: Seq<u8>)
    requires
        16 <= data.len(),
    ensures
        parse_u128(overwrite(data, enc_u128(n))) == Some((n, data.skip(16))),
{
    lemma_u128_roundtrip(n, data.skip(16));
}

/// A following list written over an account's data reads back as written.
pub proof fn law_following_read_back(l: Seq<Seq<u8>>, data: Seq<u8>)
    requires
        sorted_keys(l),
        l.len() <= u32::MAX,
        enc_following(l).len() <= data.len(),
    ensures
        parse_following(overwrite(data, enc_following(l))) == Some(
            (l, data.skip(enc_following(l).len() as int)),
        ),
{
    lemma_following_roundtrip(l, data.skip(enc_following(l).len() as int));
}

/// The record of a post written over an account's data reads back as the
/// post's address.
pub proof fn law_account_post_read_back(post: Seq<u8>, data: Seq<u8>)
    requires
        post.len() == 32,
        32 <= data.len(),
    ensures
        parse_key(overwrite(data, enc_key(post))) == Some((post, data.skip(32))),
{
    lemma_key_roundtrip(post, data.skip(32));
}

// ---------------------------------------------------------------------------
// What each instruction does to what it reads.
/// Instantiating leaves a post count of zero, in the one account it asks for.
pub proof fn law_instantiate_starts_at_zero(s: InstructionState)
    requires
        s.accounts.len() == 3,
    ensures
        instantiate_effect(s) matches Ok(eff) && parse_u128(eff.data[0]) matches Some((n, _))
            && n == 0 && eff.created.len() == 1,
{
    reveal(instantiate_effect);
    crate::codec::lemma_le_bytes_len(0, 16);
    lemma_u128_roundtrip(0, crate::instructions::zeros(16));
    let e = instantiate_effect(s)->Ok_0;
    assert(e.data[0] =~= enc_u128(0) + crate::instructions::zeros(16));
}

/// Liking a post adds exactly one to its likes, leaves the rest of the post
/// as it was, and marks the liker's status liked, keeping its other marks.
pub proof fn law_like_adds_one(s: InstructionState)
    requires
        s.accounts.len() == 4,
        like_post_effect(s) is Ok,
    ensures
        parse_post(s.accounts[0].data) matches Some((p, _)) && parse_post(
            like_post_effect(s)->Ok_0.data[0],
        ) matches Some((q, _)) && q == liked_post(p) && q.like_count == p.like_count + 1,
        parse_status(s.accounts[1].data) matches Some((old, _)) && parse_status(
            like_post_effect(s)->Ok_0.data[1],
        ) matches Some((st, _)) && st == (PostUserInteractionStatus { liked: true, ..old }),
        like_post_effect(s)->Ok_0.created.len() == 0,
{
    reveal(like_post_effect);
    let (p, _) = parse_post(s.accounts[0].data)->Some_0;
    lemma_parse_post_wf(s.accounts[0].data);
    let (old, _) = parse_status(s.accounts[1].data)->Some_0;
    law_post_read_back(liked_post(p), s.accounts[0].data);
    law_status_read_back(PostUserInteractionStatus { liked: true, ..old }, s.accounts[1].data);
}

/// A like goes through whenever the post and the user's status on it can
/// be read, the user has not liked the post yet and its like count can
/// grow: it is refused for nothing else. The post then has one more like.
pub proof fn law_like_succeeds_unless_refused(s: InstructionState)
    requires
        s.accounts.len() == 4,
        parse_post(s.accounts[0].data) matches Some((p, _)) && p.like_count < u128::MAX,
        parse_status(s.accounts[1].data) matches Some((st, _)) && !st.liked,
    ensures
        like_post_effect(s) is Ok,
        parse_post(s.accounts[0].data) matches Some((p, _)) && parse_post(
            like_post_effect(s)->Ok_0.data[0],
        ) matches Some((q, _)) && q.like_count == p.like_count + 1 && q.comment_count
            == p.comment_count && q.repost_count == p.repost_count,
{
    reveal(like_post_effect);
    let (p, _) = parse_post(s.accounts[0].data)->Some_0;
    lemma_parse_post_wf(s.accounts[0].data);
    crate::state::post::lemma_parse_post_len(s.accounts[0].data);
    crate::codec::lemma_le_bytes_len(p.like_count as nat, 16);
    crate::codec::lemma_le_bytes_len((p.like_count + 1) as nat, 16);
    assert(enc_post(liked_post(p)).len() == enc_post(p).len());
    let (st, r) = parse_status(s.accounts[1].data)->Some_0;
    assert(s.accounts[1].data.len() >= 3);
    law_like_adds_one(s);
}

/// Updating a profile leaves the given profile in the signer's account and
/// its counters as they were (zero for a new account).
pub proof fn law_update_profile_sets_profile(s: InstructionState, profile: ProfileData)
    requires
        s.accounts.len() == 3,
        update_profile_effect(s, profile) is Ok,
    ensures
        user_account_or_default(s.accounts[0].data) matches Some(a) && parse_user_account(
            update_profile_effect(s, profile)->Ok_0.data[0],
        ) matches Some((b, _)) && b == (UserAccountData { profile, ..a }),
{
    reveal(update_profile_effect);
    let a = user_account_or_default(s.accounts[0].data)->Some_0;
    let data = crate::instructions::existing_or_new(s.accounts[0].data, 632);
    law_user_account_read_back(UserAccountData { profile, ..a }, data);
}

/// Writing a post: the post's account holds the new post (by the signer,
/// with no likes, comments or reposts), the program counts one more post,
/// the signer's account one more post of theirs with the rest unchanged, the
/// record holds the post's address, and the two accounts asked for are the
/// post (seeded by the new total) and the record (seeded by the signer and
/// their new count).
pub proof fn law_create_post_records_post(
    s: InstructionState,
    parent_post: Option<Seq<u8>>,
    is_repost: bool,
    content: Seq<char>,
)
    requires
        6 <= s.accounts.len() <= 9,
        s.accounts[2].key.len() == 32,
        s.accounts[5].key.len() == 32,
        parent_post matches Some(k) ==> k.len() == 32,
        create_post_effect(s, parent_post, is_repost, content) is Ok,
    ensures
        ({
            let eff = create_post_effect(s, parent_post, is_repost, content)->Ok_0;
            let signer = s.accounts[5].key;
            &&& parse_post(eff.data[2]) matches Some((p, _)) && p == new_post(
                parent_post,
                signer,
                is_repost,
                content,
            )
            &&& parse_u128(s.accounts[0].data) matches Some((total, _)) && parse_u128(eff.data[0])
                matches Some((t, _)) && t == total + 1
            &&& parse_user_account(s.accounts[1].data) matches Some((a, _)) && parse_user_account(
                eff.data[1],
            ) matches Some((b, _)) && b == (UserAccountData {
                post_count: (a.post_count + 1) as u128,
                ..a
            })
            &&& parse_key(eff.data[3]) matches Some((k, _)) && k == s.accounts[2].key
            &&& parse_u128(s.accounts[0].data) matches Some((total, _)) && parse_user_account(
                s.accounts[1].data,
            ) matches Some((a, _)) && eff.created.len() >= 2 && eff.created[0] == pda(
                s.program_id,
                signer,
                s.accounts[2].key,
                393,
                post_seed((total + 1) as nat),
            ) && eff.created[1] == pda(
                s.program_id,
                signer,
                s.accounts[3].key,
                32,
                account_post_seed(signer, (a.post_count + 1) as nat),
            )
        }),
{
    lemma_create_post_keeps_core(s, parent_post, is_repost, content);
    lemma_create_post_core_shape(s, parent_post, is_repost, content);
    let (a, _) = parse_user_account(s.accounts[1].data)->Some_0;
    let (total, _) = parse_u128(s.accounts[0].data)->Some_0;
    let new_user = UserAccountData { post_count: (a.post_count + 1) as u128, ..a };
    let p = new_post(parent_post, s.accounts[5].key, is_repost, content);
    law_user_account_read_back(new_user, s.accounts[1].data);
    law_post_count_read_back((total + 1) as u128, s.accounts[0].data);
    law_post_read_back(p, crate::instructions::zeros(393));
    law_account_post_read_back(s.accounts[2].key, crate::instructions::zeros(32));
}

/// A successful `CreatePost` keeps what its first part wrote into the first
/// four accounts and the first two accounts it asked for.
proof fn lemma_create_post_keeps_core(
    s: InstructionState,
    parent_post: Option<Seq<u8>>,
    is_repost: bool,
    content: Seq<char>,
)
    requires
        6 <= s.accounts.len() <= 9,
        create_post_effect(s, parent_post, is_repost, content) is Ok,
    ensures
        ({
            let eff = create_post_effect(s, parent_post, is_repost, content)->Ok_0;
            let e1 = create_post_core_effect(s, parent_post, is_repost, content)->Ok_0;
            &&& create_post_core_effect(s, parent_post, is_repost, content) is Ok
            &&& forall|i: int| 0 <= i < 4 ==> eff.data[i] == #[trigger] e1.data[i]
            &&& e1.created.len() == 2 ==> eff.created.len() >= 2 && eff.created[0] == e1.created[0]
                && eff.created[1] == e1.created[1]
        }),
{
    reveal(create_post_effect);
    let e1 = create_post_core_effect(s, parent_post, is_repost, content)->Ok_0;
    if s.accounts.len() >= 8 {
        reveal(parent_effect);
        assert(e1.data.len() == s.accounts.len()) by {
            reveal(create_post_core_effect);
        }
    }
}

/// What the first part of a successful `CreatePost` writes.
proof fn lemma_create_post_core_shape(
    s: InstructionState,
    parent_post: Option<Seq<u8>>,
    is_repost: bool,
    content: Seq<char>,
)
    requires
        6 <= s.accounts.len(),
        s.accounts[2].key.len() == 32,
        s.accounts[5].key.len() == 32,
        parent_post matches Some(k) ==> k.len() == 32,
        create_post_core_effect(s, parent_post, is_repost, content) is Ok,
    ensures
        ({
            let e1 = create_post_core_effect(s, parent_post, is_repost, content)->Ok_0;
            let (a, _) = parse_user_account(s.accounts[1].data)->Some_0;
            let (total, _) = parse_u128(s.accounts[0].data)->Some_0;
            let new_user = UserAccountData { post_count: (a.post_count + 1) as u128, ..a };
            let signer = s.accounts[5].key;
            let p = new_post(parent_post, signer, is_repost, content);
            &&& parse_user_account(s.accounts[1].data) is Some
            &&& parse_u128(s.accounts[0].data) is Some
            &&& a.post_count < u128::MAX
            &&& total < u128::MAX
            &&& profile_fits(a.profile)
            &&& str_fits(content)
            &&& post_keys_wf(p)
            &&& enc_user_account(new_user).len() <= s.accounts[1].data.len()
            &&& 16 <= s.accounts[0].data.len()
            &&& enc_post(p).len() <= 393
            &&& e1.data[0] == overwrite(s.accounts[0].data, enc_u128((total + 1) as u128))
            &&& e1.data[1] == overwrite(s.accounts[1].data, enc_user_account(new_user))
            &&& e1.data[2] == overwrite(crate::instructions::zeros(393), enc_post(p))
            &&& e1.data[3] == overwrite(crate::instructions::zeros(32), enc_key(s.accounts[2].key))
            &&& e1.created.len() == 2
            &&& e1.created[0] == pda(
                s.program_id,
                signer,
                s.accounts[2].key,
                393,
                post_seed((total + 1) as nat),
            )
            &&& e1.created[1] == pda(
                s.program_id,
                signer,
                s.accounts[3].key,
                32,
                account_post_seed(signer, (a.post_count + 1) as nat),
            )
        }),
{
    reveal(create_post_core_effect);
    crate::codec::lemma_le_bytes_len(0, 16);
}

/// A successful `CreatePost` with a parent post: its second part runs on
/// what the first part left, with the optional accounts as they were given.
proof fn lemma_create_post_answer(
    s: InstructionState,
    parent_post: Option<Seq<u8>>,
    is_repost: bool,
    content: Seq<char>,
)
    requires
        8 <= s.accounts.len() <= 9,
        create_post_effect(s, parent_post, is_repost, content) is Ok,
    ensures
        ({
            let eff = create_post_effect(s, parent_post, is_repost, content)->Ok_0;
            let e1 = create_post_core_effect(s, parent_post, is_repost, content)->Ok_0;
            let s1 = after(s, e1);
            &&& create_post_core_effect(s, parent_post, is_repost, content) is Ok
            &&& parent_effect(s1, is_repost) is Ok
            &&& eff.data == parent_effect(s1, is_repost)->Ok_0.data
            &&& eff.created == e1.created + parent_effect(s1, is_repost)->Ok_0.created
            &&& e1.created.len() == 2
            &&& s1.program_id == s.program_id
            &&& s1.accounts.len() == s.accounts.len()
            &&& forall|i: int| 0 <= i < s.accounts.len() ==> #[trigger] s1.accounts[i].key == s.accounts[i].key
            &&& forall|i: int| 6 <= i < s.accounts.len() ==> #[trigger] s1.accounts[i] == s.accounts[i]
        }),
{
    reveal(create_post_effect);
    let e1 = create_post_core_effect(s, parent_post, is_repost, content)->Ok_0;
    assert(e1.data.len() == s.accounts.len() && e1.created.len() == 2 && forall|i: int|
        6 <= i < s.accounts.len() ==> #[trigger] e1.data[i] == s.accounts[i].data) by {
        reveal(create_post_core_effect);
    }
    let s1 = after(s, e1);
    assert forall|i: int| 6 <= i < s.accounts.len() implies #[trigger] s1.accounts[i] == s.accounts[i] by {
        assert(e1.data[i] == s.accounts[i].data);
    }
}

/// A comment or a repost counts one more comment or repost on the parent
/// post, leaving the rest of it unchanged, and marks the signer's status on
/// the parent commented or reposted, keeping its other marks.
pub proof fn law_answer_counts_on_parent(
    s: InstructionState,
    parent_post: Option<Seq<u8>>,
    is_repost: bool,
    content: Seq<char>,
)
    requires
        8 <= s.accounts.len() <= 9,
        create_post_effect(s, parent_post, is_repost, content) is Ok,
    ensures
        ({
            let eff = create_post_effect(s, parent_post, is_repost, content)->Ok_0;
            &&& parse_post(s.accounts[6].data) matches Some((old, _)) && parse_post(eff.data[6])
                matches Some((new, _)) && new == answered_post(old, is_repost)
            &&& status_or_fresh(s.accounts[7].data) matches Some(old) && parse_status(eff.data[7])
                matches Some((st, _)) && st == answered_status(old, is_repost)
        }),
{
    lemma_create_post_answer(s, parent_post, is_repost, content);
    reveal(parent_effect);
    let e1 = create_post_core_effect(s, parent_post, is_repost, content)->Ok_0;
    let s1 = after(s, e1);
    assert(s1.accounts[6] == s.accounts[6]);
    assert(s1.accounts[7] == s.accounts[7]);
    let (old, _) = parse_post(s.accounts[6].data)->Some_0;
    lemma_parse_post_wf(s.accounts[6].data);
    let st = status_or_fresh(s.accounts[7].data)->Some_0;
    law_post_read_back(answered_post(old, is_repost), s.accounts[6].data);
    law_status_read_back(
        answered_status(st, is_repost),
        crate::instructions::existing_or_new(s.accounts[7].data, 6),
    );
}

/// A comment given with a record account: the record holds the new post's
/// address, and the last account asked for is the record, seeded by the
/// parent post and its new comment count.
pub proof fn law_comment_recorded(
    s: InstructionState,
    parent_post: Option<Seq<u8>>,
    content: Seq<char>,
)
    requires
        s.accounts.len() == 9,
        s.accounts[2].key.len() == 32,
        create_post_effect(s, parent_post, false, content) is Ok,
    ensures
        ({
            let eff = create_post_effect(s, parent_post, false, content)->Ok_0;
            &&& parse_key(eff.data[8]) matches Some((k, _)) && k == s.accounts[2].key
            &&& parse_post(s.accounts[6].data) matches Some((old, _)) && eff.created.len() >= 3
                && eff.created.last() == pda(
                s.program_id,
                s.accounts[5].key,
                s.accounts[8].key,
                32,
                comment_seed(s.accounts[6].key, (old.comment_count + 1) as nat),
            )
        }),
{
    lemma_create_post_answer(s, parent_post, false, content);
    reveal(parent_effect);
    let e1 = create_post_core_effect(s, parent_post, false, content)->Ok_0;
    let s1 = after(s, e1);
    assert(s1.accounts[6] == s.accounts[6]);
    assert(s1.accounts[2].key == s.accounts[2].key);
    assert(s1.accounts[8] == s.accounts[8]);
    law_account_post_read_back(s.accounts[2].key, crate::instructions::zeros(32));
}

/// The account that an operation leaves for a user whose counter it moves.
pub open spec fn moved_account(a: UserAccountData, changes: bool, following: bool, add: bool) -> UserAccountData {
    if !changes {
        a
    } else if following {
        UserAccountData { following_count: stepped(a.following_count, add), ..a }
    } else {
        UserAccountData { follower_count: stepped(a.follower_count, add), ..a }
    }
}

/// What a successful `UpdateFollowingList` writes, account by account.
pub proof fn lemma_follow_effect_shape(s: InstructionState, user: Seq<u8>, add: bool)
    requires
        s.accounts.len() == 5,
        update_following_list_effect(s, user, add) is Ok,
    ensures
        ({
            let e = update_following_list_effect(s, user, add)->Ok_0;
            let l = following_or_empty(s.accounts[0].data)->Some_0;
            let me = parse_user_account(s.accounts[1].data)->Some_0.0;
            let other = parse_user_account(s.accounts[2].data)->Some_0.0;
            let changes = follow_changes(l, user, add);
            let list_data = crate::instructions::existing_or_new(s.accounts[0].data, 1600);
            &&& following_or_empty(s.accounts[0].data) is Some
            &&& parse_user_account(s.accounts[1].data) is Some
            &&& parse_user_account(s.accounts[2].data) is Some
            &&& changes ==> !step_overflows(me.following_count, add) && !step_overflows(
                other.follower_count,
                add,
            )
            &&& followed_list(l, user, add).len() <= u32::MAX
            &&& enc_following(followed_list(l, user, add)).len() <= list_data.len()
            &&& enc_user_account(moved_account(me, changes, true, add)).len()
                <= s.accounts[1].data.len()
            &&& enc_user_account(moved_account(other, changes, false, add)).len()
                <= s.accounts[2].data.len()
            &&& follow_result(s, user, add).accounts.len() == 5
            &&& follow_result(s, user, add).accounts[0].data == overwrite(
                list_data,
                enc_following(followed_list(l, user, add)),
            )
            &&& follow_result(s, user, add).accounts[1].data == overwrite(
                s.accounts[1].data,
                enc_user_account(moved_account(me, changes, true, add)),
            )
            &&& follow_result(s, user, add).accounts[2].data == overwrite(
                s.accounts[2].data,
                enc_user_account(moved_account(other, changes, false, add)),
            )
        }),
{
    reveal(update_following_list_effect);
}

/// The following list and the two users' accounts after following `user`
/// (`add`) or unfollowing them.
pub open spec fn follow_result(s: InstructionState, user: Seq<u8>, add: bool) -> InstructionState {
    after(s, update_following_list_effect(s, user, add)->Ok_0)
}

/// Following a user not followed yet and then unfollowing them gives back
/// the following list and both users' counters as they were.
pub proof fn law_follow_then_unfollow(s: InstructionState, user: Seq<u8>)
    requires
        s.accounts.len() == 5,
        user.len() == 32,
        following_or_empty(s.accounts[0].data) matches Some(l) && !l.contains(user),
        update_following_list_effect(s, user, true) is Ok,
        update_following_list_effect(follow_result(s, user, true), user, false) is Ok,
    ensures
        ({
            let s2 = follow_result(follow_result(s, user, true), user, false);
            &&& following_or_empty(s.accounts[0].data) == following_or_empty(s2.accounts[0].data)
            &&& parse_user_account(s.accounts[1].data) matches Some((a, _)) && parse_user_account(
                s2.accounts[1].data,
            ) matches Some((b, _)) && b == a
            &&& parse_user_account(s.accounts[2].data) matches Some((a, _)) && parse_user_account(
                s2.accounts[2].data,
            ) matches Some((b, _)) && b == a
        }),
{
    let l = following_or_empty(s.accounts[0].data)->Some_0;
    if s.accounts[0].data.len() > 0 {
        lemma_parse_following_wf(s.accounts[0].data);
    }
    lemma_parse_user_account_fits(s.accounts[1].data);
    lemma_parse_user_account_fits(s.accounts[2].data);
    lemma_follow_effect_shape(s, user, true);
    let (me, _) = parse_user_account(s.accounts[1].data)->Some_0;
    let (other, _) = parse_user_account(s.accounts[2].data)->Some_0;
    // After following.
    let s1 = follow_result(s, user, true);
    let l1 = insert_key(l, user);
    lemma_insert_sorted(l, user);
    let me1 = moved_account(me, true, true, true);
    let other1 = moved_account(other, true, false, true);
    let list_data = crate::instructions::existing_or_new(s.accounts[0].data, 1600);
    law_following_read_back(l1, list_data);
    law_user_account_read_back(me1, s.accounts[1].data);
    law_user_account_read_back(other1, s.accounts[2].data);
    assert(following_or_empty(s1.accounts[0].data) == Some(l1));
    // After unfollowing.
    lemma_insert_then_remove(l, user);
    lemma_follow_effect_shape(s1, user, false);
    let s2 = follow_result(s1, user, false);
    assert(moved_account(me1, true, true, false) == me);
    assert(moved_account(other1, true, false, false) == other);
    law_following_read_back(l, s1.accounts[0].data);
    law_user_account_read_back(me, s1.accounts[1].data);
    law_user_account_read_back(other, s1.accounts[2].data);
    if s.accounts[0].data.len() > 0 {
        assert(following_or_empty(s.accounts[0].data) == Some(l));
    }
}

/// Following a user who is followed already, or unfollowing one who is
/// not, changes neither the list nor any counter.
pub proof fn law_repeated_follow_changes_nothing(s: InstructionState, user: Seq<u8>, add: bool)
    requires
        s.accounts.len() == 5,
        following_or_empty(s.accounts[0].data) matches Some(l) && l.contains(user) == add,
        update_following_list_effect(s, user, add) is Ok,
    ensures
        ({
            let s1 = follow_result(s, user, add);
            &&& following_or_empty(s1.accounts[0].data) == following_or_empty(s.accounts[0].data)
            &&& parse_user_account(s1.accounts[1].data) matches Some((b, _))
                && parse_user_account(s.accounts[1].data) matches Some((a, _)) && b == a
            &&& parse_user_account(s1.accounts[2].data) matches Some((b, _))
                && parse_user_account(s.accounts[2].data) matches Some((a, _)) && b == a
        }),
{
    let l = following_or_empty(s.accounts[0].data)->Some_0;
    if s.accounts[0].data.len() > 0 {
        lemma_parse_following_wf(s.accounts[0].data);
    }
    lemma_parse_user_account_fits(s.accounts[1].data);
    lemma_parse_user_account_fits(s.accounts[2].data);
    lemma_follow_effect_shape(s, user, add);
    let (me, _) = parse_user_account(s.accounts[1].data)->Some_0;
    let (other, _) = parse_user_account(s.accounts[2].data)->Some_0;
    if add {
        lemma_insert_sorted(l, user);
    } else {
        lemma_remove_absent(l, user);
    }
    let list_data = crate::instructions::existing_or_new(s.accounts[0].data, 1600);
    law_following_read_back(l, list_data);
    law_user_account_read_back(me, s.accounts[1].data);
    law_user_account_read_back(other, s.accounts[2].data);
    if s.accounts[0].data.len() > 0 {
        assert(following_or_empty(s.accounts[0].data) == Some(l));
    }
}

/// The signer's following count stays the length of their following list:
/// when it is so before a successful `UpdateFollowingList`, it is so after.
pub proof fn law_following_count_is_list_length(s: InstructionState, user: Seq<u8>, add: bool)
    requires
        s.accounts.len() == 5,
        user.len() == 32,
        following_or_empty(s.accounts[0].data) matches Some(l) && parse_user_account(
            s.accounts[1].data,
        ) matches Some((me, _)) && me.following_count == l.len(),
        update_following_list_effect(s, user, add) is Ok,
    ensures
        ({
            let s1 = follow_result(s, user, add);
            following_or_empty(s1.accounts[0].data) matches Some(l1) && parse_user_account(
                s1.accounts[1].data,
            ) matches Some((me1, _)) && me1.following_count == l1.len()
        }),
{
    let l = following_or_empty(s.accounts[0].data)->Some_0;
    if s.accounts[0].data.len() > 0 {
        lemma_parse_following_wf(s.accounts[0].data);
    }
    lemma_parse_user_account_fits(s.accounts[1].data);
    lemma_follow_effect_shape(s, user, add);
    let (me, _) = parse_user_account(s.accounts[1].data)->Some_0;
    let changes = follow_changes(l, user, add);
    let l1 = followed_list(l, user, add);
    if add {
        lemma_insert_sorted(l, user);
    } else {
        lemma_remove_sorted(l, user);
        if changes {
            lemma_remove_len(l, user);
        } else {
            lemma_remove_absent(l, user);
        }
    }
    let list_data = crate::instructions::existing_or_new(s.accounts[0].data, 1600);
    law_following_read_back(l1, list_data);
    law_user_account_read_back(moved_account(me, changes, true, add), s.accounts[1].data);
    let s1 = follow_result(s, user, add);
    assert(s1.accounts[0].data.len() > 0);
}

/// Removing an address that is not there changes nothing.
pub proof fn lemma_remove_absent(s: Seq<Seq<u8>>, k: Seq<u8>)
    requires
        !s.contains(k),
    ensures
        remove_key(s, k) == s,
    decreases s.len(),
{
    if s.len() > 0 {
        let t = s.drop_first();
        assert(!t.contains(k)) by {
            if t.contains(k) {
                let i = choose|i: int| 0 <= i < t.len() && t[i] == k;
                assert(s[i + 1] == k);
            }
        }
        assert(s[0] != k);
        lemma_remove_absent(t, k);
        assert(seq![s[0]] + t =~= s);
    }
}

} // verus!
