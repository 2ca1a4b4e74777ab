//! A user's account: the profile and the counters kept for each user, and the
//! record that points from a user's n-th post to the post's address.
use crate::codec::{
    lemma_parse_str_fits,
    enc_key, enc_str, enc_u128, lemma_str_roundtrip, lemma_u128_roundtrip, overwrite, parse_key,
    parse_str, parse_u128, read_key, read_str, read_u128, str_fits, write_prefix, write_raw,
    write_str, write_u128,
};
use crate::error::BlawgdError;
use crate::state::address::{address_seed, base58, text_seed, Pubkey};
use crate::text::decimal;
use vstd::prelude::*;

verus! {

/// What a user shows of themselves.
#[derive(Debug)]
pub struct Profile {
    pub name: String,
    pub image: String,
    pub bio: String,
}

/// The content of a [`Profile`].
pub struct ProfileData {
    pub name: Seq<char>,
    pub image: Seq<char>,
    pub bio: Seq<char>,
}

impl View for Profile {
    type V = ProfileData;

    open spec fn view(&self) -> ProfileData {
        ProfileData { name: self.name@, image: self.image@, bio: self.bio@ }
    }
}

impl Clone for Profile {
    fn clone(&self) -> (p: Self)
        ensures
            p@ == self@,
    {
        Profile { name: self.name.clone(), image: self.image.clone(), bio: self.bio.clone() }
    }
}

/// The profile that a new account starts with: all fields empty.
pub open spec fn empty_profile() -> ProfileData {
    ProfileData { name: seq![], image: seq![], bio: seq![] }
}

/// Whether each text of a profile fits its length prefix.
pub open spec fn profile_fits(p: ProfileData) -> bool {
    str_fits(p.name) && str_fits(p.image) && str_fits(p.bio)
}

/// The stored layout of a profile: name, image, bio.
pub open spec fn enc_profile(p: ProfileData) -> Seq<u8> {
    enc_str(p.name) + enc_str(p.image) + enc_str(p.bio)
}

/// A profile read from the front of `s`.
pub open spec fn parse_profile(s: Seq<u8>) -> Option<(ProfileData, Seq<u8>)> {
    match parse_str(s) {
        None => None,
        Some((name, r1)) => match parse_str(r1) {
            None => None,
            Some((image, r2)) => match parse_str(r2) {
                None => None,
                Some((bio, r3)) => Some((ProfileData { name, image, bio }, r3)),
            },
        },
    }
}

pub proof fn lemma_profile_roundtrip(p: ProfileData, rest: Seq<u8>)
    requires
        profile_fits(p),
    ensures
        parse_profile(enc_profile(p) + rest) == Some((p, rest)),
{
    let s = enc_profile(p) + rest;
    assert(s =~= enc_str(p.name) + (enc_str(p.image) + (enc_str(p.bio) + rest)));
    lemma_str_roundtrip(p.name, enc_str(p.image) + (enc_str(p.bio) + rest));
    lemma_str_roundtrip(p.image, enc_str(p.bio) + rest);
    lemma_str_roundtrip(p.bio, rest);
}

/// A profile read from bytes fits its length prefixes.
pub proof fn lemma_parse_profile_fits(s: Seq<u8>)
    ensures
        parse_profile(s) matches Some((p, _)) ==> profile_fits(p),
{
    lemma_parse_str_fits(s);
    if let Some((_, r1)) = parse_str(s) {
        lemma_parse_str_fits(r1);
        if let Some((_, r2)) = parse_str(r1) {
            lemma_parse_str_fits(r2);
        }
    }
}

impl Profile {
    /// The profile with all fields empty.
    pub fn empty() -> (p: Profile)
        ensures
            p@ == empty_profile(),
    {
        let p = Profile { name: String::new(), image: String::new(), bio: String::new() };
        assert(p@.name =~= seq![]);
        assert(p@.image =~= seq![]);
        assert(p@.bio =~= seq![]);
        p
    }

    /// The bytes set aside for a profile in an account.
    pub fn space() -> (r: Result<usize, BlawgdError>)
        ensures
            r == Ok::<usize, BlawgdError>(600),
    {
        Ok(100 + 200 + 300)
    }

    /// The seed of the account holding the profile of `address`:
    /// the digest of `profile-` followed by the address in base58.
    pub fn seed(address: Pubkey) -> (s: Vec<u8>)
        ensures
            s@ == text_seed("profile-"@ + base58(address@)),
    {
        address_seed("profile-", &address)
    }

    /// Appends the stored layout; false, appending nothing, when a text is too long.
    pub fn write_to(&self, out: &mut Vec<u8>) -> (ok: bool)
        ensures
            ok == profile_fits(self@),
            ok ==> final(out)@ == old(out)@ + enc_profile(self@),
            !ok ==> final(out)@ == old(out)@,
    {
        let ghost start = out@;
        if self.name.as_str().as_bytes().len() > 0xffff_ffff || self.image.as_str().as_bytes().len() > 0xffff_ffff
            || self.bio.as_str().as_bytes().len() > 0xffff_ffff {
            return false;
        }
        let ok1 = write_str(out, self.name.as_str());
        let ok2 = write_str(out, self.image.as_str());
        let ok3 = write_str(out, self.bio.as_str());
        assert(ok1 && ok2 && ok3);
        assert(out@ =~= start + enc_profile(self@));
        true
    }

    /// Reads a profile at `pos`.
    pub fn read_from(data: &[u8], pos: usize) -> (r: Option<(Profile, usize)>)
        requires
            pos <= data@.len(),
        ensures
            match parse_profile(data@.skip(pos as int)) {
                None => r is None,
                Some((v, rest)) => r matches Some((x, p)) && x@ == v && p <= data@.len() && rest
                    == data@.skip(p as int),
            },
    {
        let (name, p1) = match read_str(data, pos) {
            None => { return None; },
            Some(x) => x,
        };
        let (image, p2) = match read_str(data, p1) {
            None => { return None; },
            Some(x) => x,
        };
        let (bio, p3) = match read_str(data, p2) {
            None => { return None; },
            Some(x) => x,
        };
        Some((Profile { name, image, bio }, p3))
    }
}

/// A user's account.
#[derive(Debug)]
pub struct UserAccount {
    pub profile: Profile,
    pub post_count: u128,
    pub follower_count: u128,
    pub following_count: u128,
}

/// The content of a [`UserAccount`].
pub struct UserAccountData {
    pub profile: ProfileData,
    pub post_count: u128,
    pub follower_count: u128,
    pub following_count: u128,
}

impl View for UserAccount {
    type V = UserAccountData;

    open spec fn view(&self) -> UserAccountData {
        UserAccountData {
            profile: self.profile@,
            post_count: self.post_count,
            follower_count: self.follower_count,
            following_count: self.following_count,
        }
    }
}

impl Clone for UserAccount {
    fn clone(&self) -> (a: Self)
        ensures
            a@ == self@,
    {
        UserAccount {
            profile: self.profile.clone(),
            post_count: self.post_count,
            follower_count: self.follower_count,
            following_count: self.following_count,
        }
    }
}

/// The account that a user starts with: an empty profile and zero counters.
pub open spec fn default_user_account() -> UserAccountData {
    UserAccountData {
        profile: empty_profile(),
        post_count: 0,
        follower_count: 0,
        following_count: 0,
    }
}

/// The stored layout of an account: profile, then the three counters.
pub open spec fn enc_user_account(a: UserAccountData) -> Seq<u8> {
    enc_profile(a.profile) + enc_u128(a.post_count) + enc_u128(a.follower_count) + enc_u128(
        a.following_count,
    )
}

/// An account read from the front of `s`.
pub open spec fn parse_user_account(s: Seq<u8>) -> Option<(UserAccountData, Seq<u8>)> {
    match parse_profile(s) {
        None => None,
        Some((profile, r1)) => match parse_u128(r1) {
            None => None,
            Some((post_count, r2)) => match parse_u128(r2) {
                None => None,
                Some((follower_count, r3)) => match parse_u128(r3) {
                    None => None,
                    Some((following_count, r4)) => Some(
                        (UserAccountData { profile, post_count, follower_count, following_count }, r4),
                    ),
                },
            },
        },
    }
}

pub proof fn lemma_user_account_roundtrip(a: UserAccountData, rest: Seq<u8>)
    requires
        profile_fits(a.profile),
    ensures
        parse_user_account(enc_user_account(a) + rest) == Some((a, rest)),
{
    let c3 = enc_u128(a.following_count) + rest;
    let c2 = enc_u128(a.follower_count) + c3;
    let c1 = enc_u128(a.post_count) + c2;
    assert(enc_user_account(a) + rest =~= enc_profile(a.profile) + c1);
    lemma_profile_roundtrip(a.profile, c1);
    lemma_u128_roundtrip(a.post_count, c2);
    lemma_u128_roundtrip(a.follower_count, c3);
    lemma_u128_roundtrip(a.following_count, rest);
}

/// An account read from bytes has a profile that fits its length prefixes.
pub proof fn lemma_parse_user_account_fits(s: Seq<u8>)
    ensures
        parse_user_account(s) matches Some((a, _)) ==> profile_fits(a.profile),
{
    lemma_parse_profile_fits(s);
}

impl UserAccount {
    /// An account with an empty profile and zero counters.
    pub fn default() -> (a: UserAccount)
        ensures
            a@ == default_user_account(),
    {
        UserAccount { profile: Profile::empty(), post_count: 0, follower_count: 0, following_count: 0 }
    }

    /// The bytes set aside for an account: the profile's space and 32 more.
    pub fn space() -> (r: Result<usize, BlawgdError>)
        ensures
            r == Ok::<usize, BlawgdError>(632),
    {
        let p = Profile::space()?;
        Ok(p + 16 + 16)
    }

    /// The seed of the account of `address`: the digest of `account-`
    /// followed by the address in base58.
    pub fn seed(address: Pubkey) -> (s: Vec<u8>)
        ensures
            s@ == text_seed("account-"@ + base58(address@)),
    {
        address_seed("account-", &address)
    }

    /// Appends the stored layout; false, appending nothing, when a text is too long.
    pub fn write_to(&self, out: &mut Vec<u8>) -> (ok: bool)
        ensures
            ok == profile_fits(self@.profile),
            ok ==> final(out)@ == old(out)@ + enc_user_account(self@),
            !ok ==> final(out)@ == old(out)@,
    {
        let ghost start = out@;
        if !self.profile.write_to(out) {
            return false;
        }
        write_u128(out, self.post_count);
        write_u128(out, self.follower_count);
        write_u128(out, self.following_count);
        assert(out@ =~= start + enc_user_account(self@));
        true
    }

    /// Reads an account at `pos`.
    pub fn read_from(data: &[u8], pos: usize) -> (r: Option<(UserAccount, usize)>)
        requires
            pos <= data@.len(),
        ensures
            match parse_user_account(data@.skip(pos as int)) {
                None => r is None,
                Some((v, rest)) => r matches Some((x, p)) && x@ == v && p <= data@.len() && rest
                    == data@.skip(p as int),
            },
    {
        let (profile, p1) = match Profile::read_from(data, pos) {
            None => { return None; },
            Some(x) => x,
        };
        let (post_count, p2) = match read_u128(data, p1) {
            None => { return None; },
            Some(x) => x,
        };
        let (follower_count, p3) = match read_u128(data, p2) {
            None => { return None; },
            Some(x) => x,
        };
        let (following_count, p4) = match read_u128(data, p3) {
            None => { return None; },
            Some(x) => x,
        };
        Some((UserAccount { profile, post_count, follower_count, following_count }, p4))
    }

    /// Reads the account kept at the front of an account's data.
    pub fn deserialize(data: &[u8]) -> (r: Result<UserAccount, BlawgdError>)
        ensures
            match parse_user_account(data@) {
                None => r == Err::<UserAccount, BlawgdError>(BlawgdError::BorshIoError),
                Some((v, _)) => r matches Ok(a) && a@ == v,
            },
    {
        assert(data@.skip(0) =~= data@);
        match UserAccount::read_from(data, 0) {
            None => Err(BlawgdError::BorshIoError),
            Some((a, _)) => Ok(a),
        }
    }

    /// Writes the account over the front of an account's data.
    pub fn serialize(&self, data: &mut Vec<u8>) -> (r: Result<(), BlawgdError>)
        ensures
            r is Ok <==> profile_fits(self@.profile) && enc_user_account(self@).len()
                <= old(data)@.len(),
            r is Ok ==> final(data)@ == overwrite(old(data)@, enc_user_account(self@)),
            r is Err ==> r == Err::<(), BlawgdError>(BlawgdError::BorshIoError) && final(data)@
                == old(data)@,
    {
        let mut bytes: Vec<u8> = Vec::new();
        if !self.write_to(&mut bytes) {
            return Err(BlawgdError::BorshIoError);
        }
        assert(bytes@ =~= enc_user_account(self@));
        if write_prefix(data, &bytes) {
            Ok(())
        } else {
            Err(BlawgdError::BorshIoError)
        }
    }
}

/// The record of a user's post: the post's address.
#[derive(Clone, Copy, Debug)]
pub struct AccountPost {
    pub post: Pubkey,
}

/// The stored layout of an [`AccountPost`]: the 32 bytes of the address.
pub open spec fn enc_account_post(post: Seq<u8>) -> Seq<u8> {
    enc_key(post)
}

impl AccountPost {
    /// The bytes set aside for the record.
    pub fn space() -> (r: Result<usize, BlawgdError>)
        ensures
            r == Ok::<usize, BlawgdError>(32),
    {
        Ok(32)
    }

    /// The seed of the record of the `acc_post_num`-th post of `address`:
    /// the digest of `account-post-`, the address in base58, `-`, and the
    /// number in decimal.
    pub fn seed(address: Pubkey, acc_post_num: u128) -> (s: Vec<u8>)
        ensures
            s@ == text_seed(
                "account-post-"@ + base58(address@) + "-"@ + decimal(acc_post_num as nat),
            ),
    {
        let mut s = String::from_str("account-post-");
        let b = crate::state::address::pubkey_base58(&address);
        s.append(b.as_str());
        s.append("-");
        crate::text::push_decimal(&mut s, acc_post_num);
        crate::state::address::hash_text(&s)
    }

    /// Writes the record over the front of an account's data.
    pub fn serialize(&self, data: &mut Vec<u8>) -> (r: Result<(), BlawgdError>)
        ensures
            r is Ok <==> 32 <= old(data)@.len(),
            r is Ok ==> final(data)@ == overwrite(old(data)@, enc_account_post(self.post@)),
            r is Err ==> r == Err::<(), BlawgdError>(BlawgdError::BorshIoError) && final(data)@
                == old(data)@,
    {
        let mut bytes: Vec<u8> = Vec::new();
        write_raw(&mut bytes, self.post.0.as_slice());
        assert(bytes@ =~= enc_account_post(self.post@));
        if write_prefix(data, &bytes) {
            Ok(())
        } else {
            Err(BlawgdError::BorshIoError)
        }
    }

    /// Reads the record kept at the front of an account's data.
    pub fn deserialize(data: &[u8]) -> (r: Result<AccountPost, BlawgdError>)
        ensures
            match parse_key(data@) {
                None => r == Err::<AccountPost, BlawgdError>(BlawgdError::BorshIoError),
                Some((v, _)) => r matches Ok(a) && a.post@ == v,
            },
    {
        assert(data@.skip(0) =~= data@);
        match read_key(data, 0) {
            None => Err(BlawgdError::BorshIoError),
            Some((k, _)) => Ok(AccountPost { post: Pubkey(k) }),
        }
    }
}

} // verus!
