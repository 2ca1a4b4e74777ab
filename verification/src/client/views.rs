//! How the client shows accounts and posts: accounts with defaults filled
//! in, posts joined with their authors' accounts, newest first.
use crate::client::keys::{account_info_key, joined_key};
use crate::codec::utf8;
use crate::text::{parse_u64, parse_u64_spec};
use vstd::prelude::*;
use vstd::string::{StrSliceExecFns, StringExecFns};

verus! {

/// An account as the chain serves it.
#[derive(Debug)]
pub struct AccountInfo {
    pub address: String,
    pub name: String,
    pub photo: String,
    pub following_count: u64,
    pub followers_count: u64,
    pub post_count: u64,
}

/// The content of an [`AccountInfo`].
pub struct AccountInfoData {
    pub address: Seq<char>,
    pub name: Seq<char>,
    pub photo: Seq<char>,
    pub following_count: u64,
    pub followers_count: u64,
    pub post_count: u64,
}

impl View for AccountInfo {
    type V = AccountInfoData;

    open spec fn view(&self) -> AccountInfoData {
        AccountInfoData {
            address: self.address@,
            name: self.name@,
            photo: self.photo@,
            following_count: self.following_count,
            followers_count: self.followers_count,
            post_count: self.post_count,
        }
    }
}

impl Clone for AccountInfo {
    fn clone(&self) -> (a: Self)
        ensures
            a@ == self@,
    {
        AccountInfo {
            address: self.address.clone(),
            name: self.name.clone(),
            photo: self.photo.clone(),
            following_count: self.following_count,
            followers_count: self.followers_count,
            post_count: self.post_count,
        }
    }
}

/// An account with nothing in it.
pub open spec fn blank_account() -> AccountInfoData {
    AccountInfoData {
        address: Seq::empty(),
        name: Seq::empty(),
        photo: Seq::empty(),
        following_count: 0,
        followers_count: 0,
        post_count: 0,
    }
}

impl AccountInfo {
    /// An account with nothing in it.
    pub fn blank() -> (a: AccountInfo)
        ensures
            a@ == blank_account(),
    {
        AccountInfo {
            address: String::new(),
            name: String::new(),
            photo: String::new(),
            following_count: 0,
            followers_count: 0,
            post_count: 0,
        }
    }
}

/// The picture shown for an account without one.
pub open spec fn default_photo() -> Seq<char> {
    "/assets/imgs/profile.jpeg"@
}

/// The characters of `address` from the one at its byte length less five,
/// five of them at most: the end of an ASCII address.
pub open spec fn name_suffix(address: Seq<char>) -> Seq<char> {
    let n = utf8(address).len() - 5;
    if n >= address.len() {
        Seq::empty()
    } else if n + 5 >= address.len() {
        address.skip(n)
    } else {
        address.subrange(n, n + 5)
    }
}

/// An account as shown: at `address`, with the default picture when it has
/// none and the name `anon` followed by the end of the address when it has
/// none.
pub open spec fn normalized(info: AccountInfoData, address: Seq<char>) -> AccountInfoData {
    AccountInfoData {
        address,
        photo: if info.photo.len() == 0 {
            default_photo()
        } else {
            info.photo
        },
        name: if info.name.len() == 0 {
            "anon"@ + name_suffix(address)
        } else {
            info.name
        },
        ..info
    }
}

/// Fills in what an account lacks for showing; see [`normalized`].
pub fn normalize_account_info(account_info: AccountInfo, address: String) -> (a: AccountInfo)
    requires
        account_info@.name.len() == 0 ==> utf8(address@).len() >= 5,
    ensures
        a@ == normalized(account_info@, address@),
{
    let mut account_info = account_info;
    account_info.address = address.clone();
    if account_info.photo.as_str().is_empty() {
        account_info.photo = String::from_str("/assets/imgs/profile.jpeg");
    }
    if account_info.name.as_str().is_empty() {
        let byte_len = address.as_str().as_bytes().len();
        let char_len = address.as_str().unicode_len();
        let n = byte_len - 5;
        let mut name = String::from_str("anon");
        if n < char_len {
            let end = if char_len - n <= 5 {
                char_len
            } else {
                n + 5
            };
            let suffix = address.as_str().substring_char(n, end);
            name.append(suffix);
            proof {
                if end == char_len {
                    assert(address@.subrange(n as int, end as int) =~= address@.skip(n as int));
                }
            }
        }
        account_info.name = name;
    }
    account_info
}

/// A post as the chain serves it; a repost holds the post it repeats.
#[derive(Debug)]
pub struct Post {
    pub id: String,
    pub creator: String,
    pub content: String,
    pub parent_post: String,
    pub comments_count: u64,
    pub like_count: u64,
    pub repost_count: u64,
    pub repost_parent: Option<Box<Post>>,
}

/// The fields of a post but the one it repeats.
pub struct PostFields {
    pub id: Seq<char>,
    pub creator: Seq<char>,
    pub content: Seq<char>,
    pub parent_post: Seq<char>,
    pub comments_count: u64,
    pub like_count: u64,
    pub repost_count: u64,
}

/// The fields of `p` but the post it repeats.
pub open spec fn post_fields(p: &Post) -> PostFields {
    PostFields {
        id: p.id@,
        creator: p.creator@,
        content: p.content@,
        parent_post: p.parent_post@,
        comments_count: p.comments_count,
        like_count: p.like_count,
        repost_count: p.repost_count,
    }
}

/// A post and the post it repeats, each by its own fields.
pub struct PostData {
    pub post: PostFields,
    pub repost_parent: Option<PostFields>,
}

impl View for Post {
    type V = PostData;

    open spec fn view(&self) -> PostData {
        PostData {
            post: post_fields(self),
            repost_parent: match &self.repost_parent {
                None => None,
                Some(b) => Some(post_fields(&**b)),
            },
        }
    }
}

/// A post as shown: with its author's account, and the post it repeats.
#[derive(Debug)]
pub struct PostView {
    pub id: String,
    pub creator: Option<AccountInfo>,
    pub content: String,
    pub parent_post: String,
    pub comments_count: u64,
    pub like_count: u64,
    pub repost_count: u64,
    pub repost_parent: Option<Box<PostView>>,
}

/// The fields of a shown post but the one it repeats.
pub struct PostViewFields {
    pub id: Seq<char>,
    pub creator: Option<AccountInfoData>,
    pub content: Seq<char>,
    pub parent_post: Seq<char>,
    pub comments_count: u64,
    pub like_count: u64,
    pub repost_count: u64,
}

/// The fields of `p` but the post it repeats.
pub open spec fn view_fields(p: &PostView) -> PostViewFields {
    PostViewFields {
        id: p.id@,
        creator: match &p.creator {
            None => None,
            Some(a) => Some(a@),
        },
        content: p.content@,
        parent_post: p.parent_post@,
        comments_count: p.comments_count,
        like_count: p.like_count,
        repost_count: p.repost_count,
    }
}

/// A shown post and the post it repeats, each by its own fields; and
/// whether the repeated post repeats another in turn.
pub struct PostViewData {
    pub post: PostViewFields,
    pub repost_parent: Option<PostViewFields>,
    pub nested: bool,
}

impl View for PostView {
    type V = PostViewData;

    open spec fn view(&self) -> PostViewData {
        PostViewData {
            post: view_fields(self),
            repost_parent: match &self.repost_parent {
                None => None,
                Some(b) => Some(view_fields(&**b)),
            },
            nested: match &self.repost_parent {
                None => false,
                Some(b) => b.repost_parent is Some,
            },
        }
    }
}

/// The value kept under `key` in a list of pairs: that of the first pair
/// with that key.
pub open spec fn lookup(m: Seq<(Seq<char>, AccountInfoData)>, key: Seq<char>) -> Option<
    AccountInfoData,
>
    decreases m.len(),
{
    if m.len() == 0 {
        None
    } else if m[0].0 == key {
        Some(m[0].1)
    } else {
        lookup(m.drop_first(), key)
    }
}

/// The views of a list of accounts under their keys.
pub open spec fn accounts_by_key(m: Seq<(String, AccountInfo)>) -> Seq<(Seq<char>, AccountInfoData)> {
    m.map_values(|e: (String, AccountInfo)| (e.0@, e.1@))
}

/// The account shown as the author of a post by `creator`: the one stored
/// under the creator's key (blank when there is none), normalized unless
/// the creator is empty.
pub open spec fn author_of(m: Seq<(Seq<char>, AccountInfoData)>, creator: Seq<char>) -> AccountInfoData {
    let found = match lookup(m, joined_key("ac-"@, creator, None)) {
        None => blank_account(),
        Some(a) => a,
    };
    if creator.len() == 0 {
        found
    } else {
        normalized(found, creator)
    }
}

/// A post as shown, without what it repeats.
pub open spec fn shown_fields(m: Seq<(Seq<char>, AccountInfoData)>, p: PostFields) -> PostViewFields {
    PostViewFields {
        id: p.id,
        creator: Some(author_of(m, p.creator)),
        content: p.content,
        parent_post: p.parent_post,
        comments_count: p.comments_count,
        like_count: p.like_count,
        repost_count: p.repost_count,
    }
}

/// A post as shown: its fields with its author, and the post it repeats
/// with that one's author, one level deep.
pub open spec fn shown_post(m: Seq<(Seq<char>, AccountInfoData)>, p: PostData) -> PostViewData {
    PostViewData {
        post: shown_fields(m, p.post),
        repost_parent: match p.repost_parent {
            None => None,
            Some(r) => Some(shown_fields(m, r)),
        },
        nested: false,
    }
}

/// Whether normalizing the author of a post by `creator` stays in range:
/// a creator whose account has no name is at least five bytes long.
pub open spec fn author_showable(m: Seq<(Seq<char>, AccountInfoData)>, creator: Seq<char>) -> bool {
    creator.len() > 0 ==> (match lookup(m, joined_key("ac-"@, creator, None)) {
        None => false,
        Some(a) => a.name.len() > 0,
    } || utf8(creator).len() >= 5)
}

fn find_account(account_infos: &Vec<(String, AccountInfo)>, key: &String) -> (r: Option<AccountInfo>)
    ensures
        match lookup(accounts_by_key(account_infos@), key@) {
            None => r is None,
            Some(a) => r matches Some(x) && x@ == a,
        },
{
    let ghost m = accounts_by_key(account_infos@);
    let mut i: usize = 0;
    assert(m.skip(0) =~= m);
    while i < account_infos.len()
        invariant
            i <= account_infos@.len(),
            m == accounts_by_key(account_infos@),
            lookup(m, key@) == lookup(m.skip(i as int), key@),
        decreases account_infos@.len() - i,
    {
        assert(m.skip(i as int)[0] == m[i as int]);
        if account_infos[i].0 == *key {
            return Some(account_infos[i].1.clone());
        }
        assert(m.skip(i as int).drop_first() =~= m.skip(i + 1));
        i = i + 1;
    }
    None
}

fn author(account_infos: &Vec<(String, AccountInfo)>, creator: &String) -> (a: AccountInfo)
    requires
        author_showable(accounts_by_key(account_infos@), creator@),
    ensures
        a@ == author_of(accounts_by_key(account_infos@), creator@),
{
    let key = account_info_key(creator.clone());
    let found = match find_account(account_infos, &key) {
        None => AccountInfo::blank(),
        Some(a) => a,
    };
    if !creator.as_str().is_empty() {
        normalize_account_info(found, creator.clone())
    } else {
        found
    }
}

fn show_fields(account_infos: &Vec<(String, AccountInfo)>, p: &Post) -> (v: PostView)
    requires
        author_showable(accounts_by_key(account_infos@), p.creator@),
    ensures
        view_fields(&v) == shown_fields(accounts_by_key(account_infos@), post_fields(p)),
        v.repost_parent is None,
{
    PostView {
        id: p.id.clone(),
        creator: Some(author(account_infos, &p.creator)),
        content: p.content.clone(),
        parent_post: p.parent_post.clone(),
        comments_count: p.comments_count,
        like_count: p.like_count,
        repost_count: p.repost_count,
        repost_parent: None,
    }
}

/// Whether every post's author, and that of the post it repeats, can be
/// shown.
pub open spec fn posts_showable(m: Seq<(Seq<char>, AccountInfoData)>, posts: Seq<PostData>) -> bool {
    forall|i: int|
        0 <= i < posts.len() ==> author_showable(m, (#[trigger] posts[i]).post.creator) && (
        posts[i].repost_parent matches Some(r) ==> author_showable(m, r.creator))
}

/// The views of a list of posts.
pub open spec fn posts_view(v: Seq<Post>) -> Seq<PostData> {
    v.map_values(|p: Post| p@)
}

/// The views of a list of shown posts.
pub open spec fn post_views_view(v: Seq<PostView>) -> Seq<PostViewData> {
    v.map_values(|p: PostView| p@)
}

/// Joins each post with its author's account, and the post it repeats with
/// that one's author; see [`shown_post`].
pub fn posts_to_post_views(account_infos: &Vec<(String, AccountInfo)>, posts: Vec<Post>) -> (v: Vec<
    PostView,
>)
    requires
        posts_showable(accounts_by_key(account_infos@), posts_view(posts@)),
    ensures
        post_views_view(v@) == posts_view(posts@).map_values(
            |p: PostData| shown_post(accounts_by_key(account_infos@), p),
        ),
{
    let ghost m = accounts_by_key(account_infos@);
    let ghost target = posts_view(posts@).map_values(|p: PostData| shown_post(m, p));
    let mut out: Vec<PostView> = Vec::new();
    let mut i: usize = 0;
    while i < posts.len()
        invariant
            i <= posts@.len(),
            m == accounts_by_key(account_infos@),
            posts_showable(m, posts_view(posts@)),
            target == posts_view(posts@).map_values(|p: PostData| shown_post(m, p)),
            post_views_view(out@) == target.take(i as int),
        decreases posts@.len() - i,
    {
        let p = &posts[i];
        assert(posts_view(posts@)[i as int] == p@);
        let mut shown = show_fields(account_infos, p);
        match &p.repost_parent {
            None => {},
            Some(r) => {
                let rv = show_fields(account_infos, &**r);
                shown.repost_parent = Some(Box::new(rv));
            },
        }
        let ghost before = out@;
        out.push(shown);
        assert(post_views_view(out@) =~= target.take(i + 1)) by {
            assert(post_views_view(out@) =~= post_views_view(before).push(shown@));
        }
        i = i + 1;
    }
    assert(target.take(i as int) =~= target);
    out
}

/// The number a shown post is ordered by: its id read as a `u64`, or 0.
pub open spec fn id_key(p: PostViewData) -> u64 {
    match parse_u64_spec(p.post.id) {
        None => 0,
        Some(n) => n,
    }
}

/// Where `x` goes in a list ordered by descending id: before the first post
/// with a smaller id, after all those with the same id.
pub open spec fn insert_desc(s: Seq<PostViewData>, x: PostViewData) -> Seq<PostViewData>
    decreases s.len(),
{
    if s.len() == 0 {
        seq![x]
    } else if id_key(s[0]) < id_key(x) {
        seq![x] + s
    } else {
        seq![s[0]] + insert_desc(s.drop_first(), x)
    }
}

/// The posts ordered by descending id, posts with the same id keeping their
/// order: the order a stable sort gives.
pub open spec fn sorted_desc(s: Seq<PostViewData>) -> Seq<PostViewData>
    decreases s.len(),
{
    if s.len() == 0 {
        s
    } else {
        insert_desc(sorted_desc(s.drop_last()), s.last())
    }
}

fn key_of(p: &PostView) -> (k: u64)
    ensures
        k == id_key(p@),
{
    match parse_u64(p.id.as_str()) {
        None => 0,
        Some(n) => n,
    }
}

proof fn lemma_insert_desc_at(s: Seq<PostViewData>, x: PostViewData, j: int)
    requires
        0 <= j <= s.len(),
        forall|k: int| 0 <= k < j ==> id_key(#[trigger] s[k]) >= id_key(x),
        j < s.len() ==> id_key(s[j]) < id_key(x),
    ensures
        insert_desc(s, x) == s.take(j) + seq![x] + s.skip(j),
    decreases s.len(),
{
    if s.len() == 0 {
        assert(s.take(j) + seq![x] + s.skip(j) =~= seq![x]);
    } else if j == 0 {
        assert(s.take(j) + seq![x] + s.skip(j) =~= seq![x] + s);
    } else {
        let t = s.drop_first();
        assert forall|k: int| 0 <= k < j - 1 implies id_key(#[trigger] t[k]) >= id_key(x) by {
            assert(t[k] == s[k + 1]);
        }
        if j - 1 < t.len() {
            assert(t[j - 1] == s[j]);
        }
        lemma_insert_desc_at(t, x, j - 1);
        assert(s.take(j) + seq![x] + s.skip(j) =~= seq![s[0]] + (t.take(j - 1) + seq![x] + t.skip(
            j - 1,
        )));
    }
}

/// Orders posts by descending id, as a stable sort does; see
/// [`sorted_desc`].
pub fn sort_post_views(posts: Vec<PostView>) -> (v: Vec<PostView>)
    ensures
        post_views_view(v@) == sorted_desc(post_views_view(posts@)),
{
    let ghost input = post_views_view(posts@);
    let total = posts.len();
    let mut rest = posts;
    let mut out: Vec<PostView> = Vec::new();
    let mut taken: usize = 0;
    assert(input.take(0) =~= Seq::<PostViewData>::empty());
    assert(input.skip(0) =~= input);
    while rest.len() > 0
        invariant
            total == input.len(),
            taken + rest@.len() == total,
            post_views_view(rest@) == input.skip(taken as int),
            post_views_view(out@) == sorted_desc(input.take(taken as int)),
        decreases rest@.len(),
    {
        let ghost old_rest = rest@;
        let x = rest.remove(0);
        let ghost xv = x@;
        assert(xv == input[taken as int]) by {
            assert(post_views_view(old_rest)[0] == old_rest[0]@);
            assert(input.skip(taken as int)[0] == input[taken as int]);
        }
        assert forall|k: int| 0 <= k < rest@.len() implies #[trigger] post_views_view(rest@)[k]
            == input.skip(taken + 1)[k] by {
            assert(rest@[k] == old_rest[k + 1]);
            assert(post_views_view(old_rest)[k + 1] == input.skip(taken as int)[k + 1]);
        }
        assert(post_views_view(rest@) =~= input.skip(taken + 1));
        let kx = key_of(&x);
        let ghost cur = post_views_view(out@);
        let mut j: usize = 0;
        let mut found = false;
        while j < out.len() && !found
            invariant
                j <= out@.len(),
                cur == post_views_view(out@),
                kx == id_key(xv),
                forall|k: int| 0 <= k < j ==> id_key(#[trigger] cur[k]) >= kx,
                found ==> j < out@.len() && id_key(cur[j as int]) < kx,
            decreases out@.len() - j + (if found {
                0int
            } else {
                1int
            }),
        {
            assert(cur[j as int] == out@[j as int]@);
            if key_of(&out[j]) < kx {
                found = true;
            } else {
                j = j + 1;
            }
        }
        proof {
            lemma_insert_desc_at(cur, xv, j as int);
            assert(input.take(taken + 1).drop_last() =~= input.take(taken as int));
            assert(input.take(taken + 1).last() == xv);
        }
        out.insert(j, x);
        assert(post_views_view(out@) =~= cur.take(j as int) + seq![xv] + cur.skip(j as int));
        taken = taken + 1;
    }
    assert(input.take(taken as int) =~= input);
    out
}

/// The address whose account key is `key`: the first of `addresses` with
/// that key; empty when there is none.
pub open spec fn address_for_key(addresses: Seq<Seq<char>>, key: Seq<char>) -> Seq<char>
    decreases addresses.len(),
{
    if addresses.len() == 0 {
        Seq::empty()
    } else if joined_key("ac-"@, addresses[0], None) == key {
        addresses[0]
    } else {
        address_for_key(addresses.drop_first(), key)
    }
}

/// A fetched account as shown: the account (a blank one when none is
/// stored) normalized at the address its key stands for.
pub open spec fn shown_account(addresses: Seq<Seq<char>>, entry: (Seq<char>, Option<AccountInfoData>)) -> AccountInfoData {
    let address = address_for_key(addresses, entry.0);
    let info = match entry.1 {
        None => AccountInfoData { address, ..blank_account() },
        Some(a) => a,
    };
    normalized(info, address)
}

/// The views of fetched accounts under their keys.
pub open spec fn fetched_view(v: Seq<(String, Option<AccountInfo>)>) -> Seq<(Seq<char>, Option<AccountInfoData>)> {
    v.map_values(|e: (String, Option<AccountInfo>)| (e.0@, match e.1 {
        None => None,
        Some(a) => Some(a@),
    }))
}

/// Whether normalizing each fetched account stays in range: an account
/// without a name stands for an address at least five bytes long.
pub open spec fn fetched_showable(addresses: Seq<Seq<char>>, found: Seq<(Seq<char>, Option<AccountInfoData>)>) -> bool {
    forall|i: int|
        0 <= i < found.len() ==> (match (#[trigger] found[i]).1 {
            None => false,
            Some(a) => a.name.len() > 0,
        } || utf8(address_for_key(addresses, found[i].0)).len() >= 5)
}

fn address_of_key(addresses: &Vec<String>, key: &String) -> (a: String)
    ensures
        a@ == address_for_key(addresses@.map_values(|s: String| s@), key@),
{
    let ghost xs = addresses@.map_values(|s: String| s@);
    let mut i: usize = 0;
    assert(xs.skip(0) =~= xs);
    while i < addresses.len()
        invariant
            i <= addresses@.len(),
            xs == addresses@.map_values(|s: String| s@),
            address_for_key(xs, key@) == address_for_key(xs.skip(i as int), key@),
        decreases addresses@.len() - i,
    {
        assert(xs.skip(i as int)[0] == xs[i as int]);
        let k = account_info_key(addresses[i].clone());
        if k == *key {
            return addresses[i].clone();
        }
        assert(xs.skip(i as int).drop_first() =~= xs.skip(i + 1));
        i = i + 1;
    }
    String::new()
}

/// The fetched accounts as shown, in the order fetched; see
/// [`shown_account`].
pub fn account_infos_from(addresses: &Vec<String>, found: Vec<(String, Option<AccountInfo>)>) -> (v: Vec<AccountInfo>)
    requires
        fetched_showable(addresses@.map_values(|s: String| s@), fetched_view(found@)),
    ensures
        v@.map_values(|a: AccountInfo| a@) == fetched_view(found@).map_values(
            |e: (Seq<char>, Option<AccountInfoData>)| shown_account(addresses@.map_values(|s: String| s@), e),
        ),
{
    let ghost xs = addresses@.map_values(|s: String| s@);
    let ghost fv = fetched_view(found@);
    let ghost target = fv.map_values(|e: (Seq<char>, Option<AccountInfoData>)| shown_account(xs, e));
    let mut out: Vec<AccountInfo> = Vec::new();
    let mut i: usize = 0;
    while i < found.len()
        invariant
            i <= found@.len(),
            xs == addresses@.map_values(|s: String| s@),
            fv == fetched_view(found@),
            target == fv.map_values(|e: (Seq<char>, Option<AccountInfoData>)| shown_account(xs, e)),
            fetched_showable(xs, fv),
            out@.map_values(|a: AccountInfo| a@) == target.take(i as int),
        decreases found@.len() - i,
    {
        assert(fv[i as int].0 == found@[i as int].0@);
        let address = address_of_key(addresses, &found[i].0);
        let info = match &found[i].1 {
            None => {
                let mut b = AccountInfo::blank();
                b.address = address.clone();
                b
            },
            Some(a) => a.clone(),
        };
        let shown = normalize_account_info(info, address);
        let ghost before = out@;
        out.push(shown);
        assert(out@.map_values(|a: AccountInfo| a@) =~= target.take(i + 1)) by {
            assert(out@.map_values(|a: AccountInfo| a@) =~= before.map_values(|a: AccountInfo| a@).push(shown@));
        }
        i = i + 1;
    }
    assert(target.take(i as int) =~= target);
    out
}

/// The keys of the accounts of the posts' authors, and of the authors of
/// the posts they repeat, in order.
pub open spec fn author_keys(posts: Seq<PostData>) -> Seq<Seq<char>>
    decreases posts.len(),
{
    if posts.len() == 0 {
        Seq::empty()
    } else {
        let p = posts.last();
        author_keys(posts.drop_last()) + seq![joined_key("ac-"@, p.post.creator, None)] + match p.repost_parent {
            None => Seq::empty(),
            Some(r) => seq![joined_key("ac-"@, r.creator, None)],
        }
    }
}

/// The keys of the accounts to fetch for showing posts; see
/// [`author_keys`].
pub fn author_account_keys(posts: &Vec<Post>) -> (keys: Vec<String>)
    ensures
        keys@.map_values(|k: String| k@) == author_keys(posts_view(posts@)),
{
    let ghost pv = posts_view(posts@);
    let mut keys: Vec<String> = Vec::new();
    let mut i: usize = 0;
    assert(pv.take(0) =~= Seq::<PostData>::empty());
    while i < posts.len()
        invariant
            i <= posts@.len(),
            pv == posts_view(posts@),
            keys@.map_values(|k: String| k@) == author_keys(pv.take(i as int)),
        decreases posts@.len() - i,
    {
        assert(pv.take(i + 1).drop_last() =~= pv.take(i as int));
        assert(pv.take(i + 1).last() == posts@[i as int]@);
        let ghost before = keys@.map_values(|k: String| k@);
        let p = &posts[i];
        let k = account_info_key(p.creator.clone());
        keys.push(k);
        match &p.repost_parent {
            None => {
                assert(keys@.map_values(|k: String| k@) =~= author_keys(pv.take(i + 1)));
            },
            Some(r) => {
                let rk = account_info_key(r.creator.clone());
                keys.push(rk);
                assert(keys@.map_values(|k: String| k@) =~= author_keys(pv.take(i + 1)));
            },
        }
        i = i + 1;
    }
    assert(pv.take(i as int) =~= pv);
    keys
}

/// Whether posts are in descending order of id.
pub open spec fn descending(s: Seq<PostViewData>) -> bool {
    forall|i: int, j: int| 0 <= i < j < s.len() ==> id_key(s[i]) >= id_key(s[j])
}

proof fn lemma_insert_desc_keeps_order(s: Seq<PostViewData>, x: PostViewData)
    requires
        descending(s),
    ensures
        descending(insert_desc(s, x)),
        insert_desc(s, x).to_multiset() == s.to_multiset().insert(x),
    decreases s.len(),
{
    broadcast use vstd::seq_lib::group_to_multiset_ensures;
    if s.len() == 0 {
        assert(insert_desc(s, x) =~= seq![x]);
        assert(seq![x] =~= s.push(x));
    } else if id_key(s[0]) < id_key(x) {
        let r = seq![x] + s;
        assert forall|i: int, j: int| 0 <= i < j < r.len() implies id_key(r[i]) >= id_key(r[j]) by {
            if i > 0 {
                assert(r[i] == s[i - 1] && r[j] == s[j - 1]);
            } else {
                assert(r[j] == s[j - 1]);
                if j - 1 > 0 {
                    assert(id_key(s[0]) >= id_key(s[j - 1]));
                }
            }
        }
        vstd::seq_lib::lemma_multiset_commutative(seq![x], s);
        assert(seq![x].to_multiset() =~= vstd::multiset::Multiset::empty().insert(x)) by {
            assert(seq![x] =~= Seq::<PostViewData>::empty().push(x));
        }
    } else {
        let t = s.drop_first();
        assert forall|i: int, j: int| 0 <= i < j < t.len() implies id_key(t[i]) >= id_key(t[j]) by {
            assert(t[i] == s[i + 1] && t[j] == s[j + 1]);
        }
        lemma_insert_desc_keeps_order(t, x);
        let it = insert_desc(t, x);
        let r = seq![s[0]] + it;
        assert forall|i: int, j: int| 0 <= i < j < r.len() implies id_key(r[i]) >= id_key(r[j]) by {
            if i == 0 {
                assert(r[j] == it[j - 1]);
                assert(it.to_multiset().count(it[j - 1]) > 0);
                if it[j - 1] != x {
                    assert(t.to_multiset().count(it[j - 1]) > 0);
                    let k = choose|k: int| 0 <= k < t.len() && t[k] == it[j - 1];
                    assert(s[k + 1] == t[k]);
                }
            } else {
                assert(r[i] == it[i - 1] && r[j] == it[j - 1]);
            }
        }
        vstd::seq_lib::lemma_multiset_commutative(seq![s[0]], it);
        vstd::seq_lib::lemma_multiset_commutative(seq![s[0]], t);
        assert(seq![s[0]] + t =~= s);
    }
}

/// Sorting leaves the posts in descending order of id, and leaves the same
/// posts, each as often as before.
pub proof fn law_sorted_descending(s: Seq<PostViewData>)
    ensures
        descending(sorted_desc(s)),
        sorted_desc(s).to_multiset() == s.to_multiset(),
    decreases s.len(),
{
    broadcast use vstd::seq_lib::group_to_multiset_ensures;
    if s.len() > 0 {
        law_sorted_descending(s.drop_last());
        lemma_insert_desc_keeps_order(sorted_desc(s.drop_last()), s.last());
        assert(s.drop_last().push(s.last()) =~= s);
    }
}

/// Showing an account twice changes nothing the second time.
pub proof fn law_normalize_idempotent(info: AccountInfoData, address: Seq<char>)
    ensures
        normalized(normalized(info, address), address) == normalized(info, address),
{
    reveal_strlit("/assets/imgs/profile.jpeg");
    reveal_strlit("anon");
}

/// Showing an account keeps what it counts: its following, followers and
/// posts; it is shown at the given address, and keeps its name and picture
/// when it has them.
pub proof fn law_normalized_keeps_account(info: AccountInfoData, address: Seq<char>)
    ensures
        normalized(info, address).following_count == info.following_count,
        normalized(info, address).followers_count == info.followers_count,
        normalized(info, address).post_count == info.post_count,
        normalized(info, address).address == address,
        info.name.len() > 0 ==> normalized(info, address).name == info.name,
        info.photo.len() > 0 ==> normalized(info, address).photo == info.photo,
{
}

/// Each fetched account is shown with the counts it is stored with (all
/// zero when nothing is stored), at the address its key stands for, and
/// with its own name and picture when it has them.
pub proof fn law_fetched_accounts_keep_counts(
    addresses: Seq<Seq<char>>,
    found: Seq<(Seq<char>, Option<AccountInfoData>)>,
)
    ensures
        ({
            let shown = found.map_values(
                |e: (Seq<char>, Option<AccountInfoData>)| shown_account(addresses, e),
            );
            &&& shown.len() == found.len()
            &&& forall|i: int|
                0 <= i < found.len() ==> {
                    let v = #[trigger] shown[i];
                    &&& v.address == address_for_key(addresses, found[i].0)
                    &&& match found[i].1 {
                        Some(a) => {
                            &&& v.following_count == a.following_count
                            &&& v.followers_count == a.followers_count
                            &&& v.post_count == a.post_count
                            &&& (a.name.len() > 0 ==> v.name == a.name)
                            &&& (a.photo.len() > 0 ==> v.photo == a.photo)
                        },
                        None => v.following_count == 0 && v.followers_count == 0 && v.post_count
                            == 0,
                    }
                }
        }),
{
}

/// Each shown post keeps its own id, text, parent, and its like, comment
/// and repost counts, each from its own field; so does the post it repeats.
/// Its author is shown at the post's creator's address (when it names one),
/// with the counts, and the name and picture when it has them, of the
/// account stored for the creator.
pub proof fn law_shown_posts_keep_their_fields(
    m: Seq<(Seq<char>, AccountInfoData)>,
    posts: Seq<PostData>,
)
    ensures
        ({
            let shown = posts.map_values(|p: PostData| shown_post(m, p));
            &&& shown.len() == posts.len()
            &&& forall|i: int|
                0 <= i < posts.len() ==> {
                    let v = #[trigger] shown[i];
                    let p = posts[i];
                    &&& v.post.id == p.post.id
                    &&& v.post.content == p.post.content
                    &&& v.post.parent_post == p.post.parent_post
                    &&& v.post.like_count == p.post.like_count
                    &&& v.post.comments_count == p.post.comments_count
                    &&& v.post.repost_count == p.post.repost_count
                    &&& (p.post.creator.len() > 0 ==> (v.post.creator matches Some(a) && a.address
                        == p.post.creator))
                    &&& match lookup(m, joined_key("ac-"@, p.post.creator, None)) {
                        None => true,
                        Some(stored) => p.post.creator.len() > 0 ==> (v.post.creator matches Some(a)
                            && a.following_count == stored.following_count && a.followers_count
                            == stored.followers_count && a.post_count == stored.post_count && (
                        stored.name.len() > 0 ==> a.name == stored.name) && (stored.photo.len() > 0
                            ==> a.photo == stored.photo)),
                    }
                    &&& match p.repost_parent {
                        None => v.repost_parent is None,
                        Some(q) => v.repost_parent matches Some(r) && r.id == q.id && r.content
                            == q.content && r.like_count == q.like_count && r.comments_count
                            == q.comments_count && r.repost_count == q.repost_count && (
                        q.creator.len() > 0 ==> (r.creator matches Some(a) && a.address
                            == q.creator)),
                    }
                }
        }),
{
}

} // verus!
