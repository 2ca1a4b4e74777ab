//! Posts, and what one user has done to one post (liked, commented, reposted).
use crate::codec::{
    lemma_parse_str_fits,
    enc_bool, enc_key, enc_opt_key, enc_str, enc_u128, lemma_bool_roundtrip, lemma_key_roundtrip,
    lemma_opt_key_roundtrip, lemma_str_roundtrip, lemma_u128_roundtrip, overwrite, parse_bool,
    parse_key, parse_opt_key, parse_str, parse_u128, read_bool, read_key, read_opt_key, read_str,
    read_u128, str_fits, write_bool, write_opt_key, write_prefix, write_raw, write_str, write_u128,
};
use crate::error::BlawgdError;
use crate::state::address::{base58, number_seed, text_seed, Pubkey};
use crate::text::decimal;
use vstd::prelude::*;

verus! {

/// A post; a comment or a repost names the post it answers.
#[derive(Debug)]
pub struct Post {
    pub parent_post: Option<Pubkey>,
    pub creator: Pubkey,
    pub content: String,
    pub is_repost: bool,
    pub like_count: u128,
    pub comment_count: u128,
    pub repost_count: u128,
}

/// The content of a [`Post`].
pub struct PostData {
    pub parent_post: Option<Seq<u8>>,
    pub creator: Seq<u8>,
    pub content: Seq<char>,
    pub is_repost: bool,
    pub like_count: u128,
    pub comment_count: u128,
    pub repost_count: u128,
}

/// The address bytes of an optional address.
pub open spec fn opt_key_view(k: Option<Pubkey>) -> Option<Seq<u8>> {
    match k {
        None => None,
        Some(a) => Some(a@),
    }
}

impl View for Post {
    type V = PostData;

    open spec fn view(&self) -> PostData {
        PostData {
            parent_post: opt_key_view(self.parent_post),
            creator: self.creator@,
            content: self.content@,
            is_repost: self.is_repost,
            like_count: self.like_count,
            comment_count: self.comment_count,
            repost_count: self.repost_count,
        }
    }
}

/// Whether the addresses of a post are 32 bytes long, as those of a value
/// of [`Post`] are.
pub open spec fn post_keys_wf(p: PostData) -> bool {
    p.creator.len() == 32 && (p.parent_post matches Some(k) ==> k.len() == 32)
}

/// The stored layout of a post, field by field in declaration order.
pub open spec fn enc_post(p: PostData) -> Seq<u8> {
    enc_opt_key(p.parent_post) + enc_key(p.creator) + enc_str(p.content) + enc_bool(p.is_repost)
        + enc_u128(p.like_count) + enc_u128(p.comment_count) + enc_u128(p.repost_count)
}

/// A post read from the front of `s`.
pub open spec fn parse_post(s: Seq<u8>) -> Option<(PostData, Seq<u8>)> {
    match parse_opt_key(s) {
        None => None,
        Some((parent_post, r1)) => match parse_key(r1) {
            None => None,
            Some((creator, r2)) => match parse_str(r2) {
                None => None,
                Some((content, r3)) => match parse_bool(r3) {
                    None => None,
                    Some((is_repost, r4)) => match parse_u128(r4) {
                        None => None,
                        Some((like_count, r5)) => match parse_u128(r5) {
                            None => None,
                            Some((comment_count, r6)) => match parse_u128(r6) {
                                None => None,
                                Some((repost_count, r7)) => Some(
                                    (
                                        PostData {
                                            parent_post,
                                            creator,
                                            content,
                                            is_repost,
                                            like_count,
                                            comment_count,
                                            repost_count,
                                        },
                                        r7,
                                    ),
                                ),
                            },
                        },
                    },
                },
            },
        },
    }
}

pub proof fn lemma_post_roundtrip(p: PostData, rest: Seq<u8>)
    requires
        post_keys_wf(p),
        str_fits(p.content),
    ensures
        parse_post(enc_post(p) + rest) == Some((p, rest)),
{
    let c6 = enc_u128(p.repost_count) + rest;
    let c5 = enc_u128(p.comment_count) + c6;
    let c4 = enc_u128(p.like_count) + c5;
    let c3 = enc_bool(p.is_repost) + c4;
    let c2 = enc_str(p.content) + c3;
    let c1 = enc_key(p.creator) + c2;
    assert(enc_post(p) + rest =~= enc_opt_key(p.parent_post) + c1);
    lemma_opt_key_roundtrip(p.parent_post, c1);
    lemma_key_roundtrip(p.creator, c2);
    lemma_str_roundtrip(p.content, c3);
    lemma_bool_roundtrip(p.is_repost, c4);
    lemma_u128_roundtrip(p.like_count, c5);
    lemma_u128_roundtrip(p.comment_count, c6);
    lemma_u128_roundtrip(p.repost_count, rest);
}

/// A post read from bytes has 32-byte addresses and content that fits its
/// length prefix.
/// A post read from bytes took exactly the length of its layout.
pub proof fn lemma_parse_post_len(s: Seq<u8>)
    ensures
        parse_post(s) matches Some((p, rest)) ==> enc_post(p).len() + rest.len() == s.len(),
{
    if let Some((pp, r1)) = parse_opt_key(s) {
        if let Some((c, r2)) = parse_key(r1) {
            if let Some((t, r3)) = parse_str(r2) {
                let (n, rest) = crate::codec::parse_u32(r2)->Some_0;
                vstd::utf8::decode_utf8_encode_utf8(rest.take(n as int));
                crate::codec::lemma_le_bytes_len(crate::codec::utf8(t).len(), 4);
                crate::codec::lemma_le_bytes_len(0, 16);
                if let Some((p, rest)) = parse_post(s) {
                    crate::codec::lemma_le_bytes_len(p.like_count as nat, 16);
                    crate::codec::lemma_le_bytes_len(p.comment_count as nat, 16);
                    crate::codec::lemma_le_bytes_len(p.repost_count as nat, 16);
                    match pp {
                        None => {},
                        Some(k) => {
                            assert(k.len() == 32);
                        },
                    }
                }
            }
        }
    }
}

pub proof fn lemma_parse_post_wf(s: Seq<u8>)
    ensures
        parse_post(s) matches Some((p, _)) ==> post_keys_wf(p) && str_fits(p.content),
{
    if let Some((_, r1)) = parse_opt_key(s) {
        if let Some((_, r2)) = parse_key(r1) {
            lemma_parse_str_fits(r2);
        }
    }
}

impl Post {
    /// The bytes set aside for a post.
    pub fn space() -> (r: Result<usize, BlawgdError>)
        ensures
            r == Ok::<usize, BlawgdError>(393),
    {
        Ok(32 + 32 + 280 + 1 + 16 + 16 + 16)
    }

    /// The seed of the `post_num`-th post: the digest of `post-` and the
    /// number in decimal.
    pub fn seed(post_num: u128) -> (s: Vec<u8>)
        ensures
            s@ == text_seed("post-"@ + decimal(post_num as nat)),
    {
        number_seed("post-", post_num)
    }

    /// Appends the stored layout; false, appending nothing, when the content is too long.
    pub fn write_to(&self, out: &mut Vec<u8>) -> (ok: bool)
        ensures
            ok == str_fits(self@.content),
            ok ==> final(out)@ == old(out)@ + enc_post(self@),
            !ok ==> final(out)@ == old(out)@,
    {
        let ghost start = out@;
        if self.content.as_str().as_bytes().len() > 0xffff_ffff {
            return false;
        }
        write_opt_key(out, &match self.parent_post {
            None => None,
            Some(k) => Some(k.0),
        });
        write_raw(out, self.creator.0.as_slice());
        let ok = write_str(out, self.content.as_str());
        assert(ok);
        write_bool(out, self.is_repost);
        write_u128(out, self.like_count);
        write_u128(out, self.comment_count);
        write_u128(out, self.repost_count);
        assert(out@ =~= start + enc_post(self@));
        true
    }

    /// Reads a post at `pos`.
    pub fn read_from(data: &[u8], pos: usize) -> (r: Option<(Post, usize)>)
        requires
            pos <= data@.len(),
        ensures
            match parse_post(data@.skip(pos as int)) {
                None => r is None,
                Some((v, rest)) => r matches Some((x, p)) && x@ == v && p <= data@.len() && rest
                    == data@.skip(p as int),
            },
    {
        let (parent, p1) = match read_opt_key(data, pos) {
            None => { return None; },
            Some(x) => x,
        };
        let (creator, p2) = match read_key(data, p1) {
            None => { return None; },
            Some(x) => x,
        };
        let (content, p3) = match read_str(data, p2) {
            None => { return None; },
            Some(x) => x,
        };
        let (is_repost, p4) = match read_bool(data, p3) {
            None => { return None; },
            Some(x) => x,
        };
        let (like_count, p5) = match read_u128(data, p4) {
            None => { return None; },
            Some(x) => x,
        };
        let (comment_count, p6) = match read_u128(data, p5) {
            None => { return None; },
            Some(x) => x,
        };
        let (repost_count, p7) = match read_u128(data, p6) {
            None => { return None; },
            Some(x) => x,
        };
        let parent_post = match parent {
            None => None,
            Some(k) => Some(Pubkey(k)),
        };
        Some(
            (
                Post {
                    parent_post,
                    creator: Pubkey(creator),
                    content,
                    is_repost,
                    like_count,
                    comment_count,
                    repost_count,
                },
                p7,
            ),
        )
    }

    /// Reads the post kept at the front of an account's data.
    pub fn deserialize(data: &[u8]) -> (r: Result<Post, BlawgdError>)
        ensures
            match parse_post(data@) {
                None => r == Err::<Post, BlawgdError>(BlawgdError::BorshIoError),
                Some((v, _)) => r matches Ok(p) && p@ == v,
            },
    {
        assert(data@.skip(0) =~= data@);
        match Post::read_from(data, 0) {
            None => Err(BlawgdError::BorshIoError),
            Some((p, _)) => Ok(p),
        }
    }

    /// Writes the post over the front of an account's data.
    pub fn serialize(&self, data: &mut Vec<u8>) -> (r: Result<(), BlawgdError>)
        ensures
            r is Ok <==> str_fits(self@.content) && enc_post(self@).len() <= old(data)@.len(),
            r is Ok ==> final(data)@ == overwrite(old(data)@, enc_post(self@)),
            r is Err ==> r == Err::<(), BlawgdError>(BlawgdError::BorshIoError) && final(data)@
                == old(data)@,
    {
        let mut bytes: Vec<u8> = Vec::new();
        if !self.write_to(&mut bytes) {
            return Err(BlawgdError::BorshIoError);
        }
        assert(bytes@ =~= enc_post(self@));
        if write_prefix(data, &bytes) {
            Ok(())
        } else {
            Err(BlawgdError::BorshIoError)
        }
    }
}

/// What one user has done to one post.
#[derive(Clone, Copy, Debug)]
pub struct PostUserInteractionStatus {
    pub liked: bool,
    pub commented: bool,
    pub reposted: bool,
}

/// The stored layout of a [`PostUserInteractionStatus`]: three booleans.
pub open spec fn enc_status(s: PostUserInteractionStatus) -> Seq<u8> {
    enc_bool(s.liked) + enc_bool(s.commented) + enc_bool(s.reposted)
}

/// A status read from the front of `s`.
pub open spec fn parse_status(s: Seq<u8>) -> Option<(PostUserInteractionStatus, Seq<u8>)> {
    match parse_bool(s) {
        None => None,
        Some((liked, r1)) => match parse_bool(r1) {
            None => None,
            Some((commented, r2)) => match parse_bool(r2) {
                None => None,
                Some((reposted, r3)) => Some(
                    (PostUserInteractionStatus { liked, commented, reposted }, r3),
                ),
            },
        },
    }
}

pub proof fn lemma_status_roundtrip(s: PostUserInteractionStatus, rest: Seq<u8>)
    ensures
        parse_status(enc_status(s) + rest) == Some((s, rest)),
{
    let c2 = enc_bool(s.reposted) + rest;
    let c1 = enc_bool(s.commented) + c2;
    assert(enc_status(s) + rest =~= enc_bool(s.liked) + c1);
    lemma_bool_roundtrip(s.liked, c1);
    lemma_bool_roundtrip(s.commented, c2);
    lemma_bool_roundtrip(s.reposted, rest);
}

impl PostUserInteractionStatus {
    /// Nothing done yet.
    pub fn default() -> (s: PostUserInteractionStatus)
        ensures
            s == (PostUserInteractionStatus { liked: false, commented: false, reposted: false }),
    {
        PostUserInteractionStatus { liked: false, commented: false, reposted: false }
    }

    /// The bytes set aside for a status.
    pub fn space() -> (r: Result<usize, BlawgdError>)
        ensures
            r == Ok::<usize, BlawgdError>(6),
    {
        Ok(6)
    }

    /// The seed of the status of `user` on `post`: the digest of
    /// `post-user-interaction-status-`, the post's address, `-` and the
    /// user's address, both in base58.
    pub fn seed(post: Pubkey, user: Pubkey) -> (s: Vec<u8>)
        ensures
            s@ == text_seed(
                "post-user-interaction-status-"@ + base58(post@) + "-"@ + base58(user@),
            ),
    {
        let mut s = String::from_str("post-user-interaction-status-");
        let p = crate::state::address::pubkey_base58(&post);
        s.append(p.as_str());
        s.append("-");
        let u = crate::state::address::pubkey_base58(&user);
        s.append(u.as_str());
        crate::state::address::hash_text(&s)
    }

    /// Reads the status kept at the front of an account's data.
    pub fn deserialize(data: &[u8]) -> (r: Result<PostUserInteractionStatus, BlawgdError>)
        ensures
            match parse_status(data@) {
                None => r == Err::<PostUserInteractionStatus, BlawgdError>(
                    BlawgdError::BorshIoError,
                ),
                Some((v, _)) => r == Ok::<PostUserInteractionStatus, BlawgdError>(v),
            },
    {
        assert(data@.skip(0) =~= data@);
        let (liked, p1) = match read_bool(data, 0) {
            None => { return Err(BlawgdError::BorshIoError); },
            Some(x) => x,
        };
        let (commented, p2) = match read_bool(data, p1) {
            None => { return Err(BlawgdError::BorshIoError); },
            Some(x) => x,
        };
        let (reposted, _) = match read_bool(data, p2) {
            None => { return Err(BlawgdError::BorshIoError); },
            Some(x) => x,
        };
        Ok(PostUserInteractionStatus { liked, commented, reposted })
    }

    /// Writes the status over the front of an account's data.
    pub fn serialize(&self, data: &mut Vec<u8>) -> (r: Result<(), BlawgdError>)
        ensures
            r is Ok <==> 3 <= old(data)@.len(),
            r is Ok ==> final(data)@ == overwrite(old(data)@, enc_status(*self)),
            r is Err ==> r == Err::<(), BlawgdError>(BlawgdError::BorshIoError) && final(data)@
                == old(data)@,
    {
        let mut bytes: Vec<u8> = Vec::new();
        write_bool(&mut bytes, self.liked);
        write_bool(&mut bytes, self.commented);
        write_bool(&mut bytes, self.reposted);
        assert(bytes@ =~= enc_status(*self));
        if write_prefix(data, &bytes) {
            Ok(())
        } else {
            Err(BlawgdError::BorshIoError)
        }
    }
}

/// The record of a comment: the address of the post that is the comment,
/// kept under its parent post and its number among the parent's comments.
#[derive(Debug)]
pub struct Comment {
    pub post: Pubkey,
}

/// The seed of the record of the `n`-th comment on `parent`.
pub open spec fn comment_seed(parent: Seq<u8>, n: nat) -> Seq<u8> {
    text_seed("comment-"@ + base58(parent) + "-"@ + decimal(n))
}

impl Comment {
    /// The bytes set aside for the record.
    pub fn space() -> (r: Result<usize, BlawgdError>)
        ensures
            r == Ok::<usize, BlawgdError>(32),
    {
        Ok(32)
    }

    /// The seed of the record of the `comment_num`-th comment on `parent`:
    /// the digest of `comment-`, the parent's address in base58, `-`, and
    /// the number in decimal.
    pub fn seed(parent: Pubkey, comment_num: u128) -> (s: Vec<u8>)
        ensures
            s@ == comment_seed(parent@, comment_num as nat),
    {
        let mut s = String::from_str("comment-");
        let b = crate::state::address::pubkey_base58(&parent);
        s.append(b.as_str());
        s.append("-");
        crate::text::push_decimal(&mut s, comment_num);
        crate::state::address::hash_text(&s)
    }

    /// Writes the record over the front of an account's data.
    pub fn serialize(&self, data: &mut Vec<u8>) -> (r: Result<(), BlawgdError>)
        ensures
            r is Ok <==> 32 <= old(data)@.len(),
            r is Ok ==> final(data)@ == overwrite(old(data)@, enc_key(self.post@)),
            r is Err ==> r == Err::<(), BlawgdError>(BlawgdError::BorshIoError) && final(data)@
                == old(data)@,
    {
        let mut bytes: Vec<u8> = Vec::new();
        write_raw(&mut bytes, self.post.0.as_slice());
        assert(bytes@ =~= enc_key(self.post@));
        if write_prefix(data, &bytes) {
            Ok(())
        } else {
            Err(BlawgdError::BorshIoError)
        }
    }

    /// Reads the record kept at the front of an account's data.
    pub fn deserialize(data: &[u8]) -> (r: Result<Comment, BlawgdError>)
        ensures
            match parse_key(data@) {
                None => r == Err::<Comment, BlawgdError>(BlawgdError::BorshIoError),
                Some((v, _)) => r matches Ok(c) && c.post@ == v,
            },
    {
        assert(data@.skip(0) =~= data@);
        match read_key(data, 0) {
            None => Err(BlawgdError::BorshIoError),
            Some((k, _)) => Ok(Comment { post: Pubkey(k) }),
        }
    }
}

} // verus!
