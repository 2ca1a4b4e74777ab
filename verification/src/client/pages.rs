//! The decisions of the pages: what a page's URL names, which button a
//! profile shows, how a send form's amount is read, and how a like or a
//! repost changes the count shown.
use crate::client::components::SessionInfo;
use crate::client::error::ClientError;
use crate::client::host::{service_address, Host};
use crate::text::{
    decimal, has_prefix, parse_i32, parse_i32_spec, parse_u64, parse_u64_spec, push_decimal,
    push_signed, signed_decimal, strip_prefix,
};
use vstd::prelude::*;
use vstd::string::StringExecFns;

verus! {

/// What a page's URL names after `{site}/{page}/`: the address of a
/// profile or of a following list, or the id of a post.
pub open spec fn url_argument(site: Seq<char>, page: Seq<char>, url: Seq<char>) -> Option<Seq<char>> {
    let prefix = site + "/"@ + page + "/"@;
    if has_prefix(url, prefix) {
        Some(url.skip(prefix.len() as int))
    } else {
        None
    }
}

/// What `url` names after the site's address, `/`, `page` and `/`; fails
/// with `UnknownUrl` when it does not begin so.
pub fn path_argument(host: &Host, page: &str, url: &str) -> (r: Result<String, ClientError>)
    ensures
        match url_argument(service_address(host@, Seq::empty()), page@, url@) {
            None => r == Err::<String, ClientError>(ClientError::UnknownUrl),
            Some(a) => r matches Ok(x) && x@ == a,
        },
{
    let mut prefix = host.endpoint();
    prefix.append("/");
    prefix.append(page);
    prefix.append("/");
    match strip_prefix(url, prefix.as_str()) {
        None => Err(ClientError::UnknownUrl),
        Some(rest) => Ok(String::from_str(rest)),
    }
}

/// Whether the logged-in user follows `address`: false for a visitor, else
/// whether `address` is in the user's following list.
pub fn is_following(session: &Option<SessionInfo>, followings: &Vec<String>, address2: &String) -> (b:
    bool)
    ensures
        session is None ==> !b,
        session is Some ==> b == followings@.map_values(|f: String| f@).contains(address2@),
{
    if session.is_none() {
        return false;
    }
    let ghost fs = followings@.map_values(|f: String| f@);
    let mut found = false;
    let mut i: usize = 0;
    while i < followings.len()
        invariant
            i <= followings@.len(),
            fs == followings@.map_values(|f: String| f@),
            found == fs.take(i as int).contains(address2@),
        decreases followings@.len() - i,
    {
        assert(fs.take(i + 1) =~= fs.take(i as int).push(fs[i as int]));
        if followings[i] == *address2 {
            found = true;
            assert(fs.take(i + 1)[i as int] == address2@);
        }
        i = i + 1;
    }
    assert(fs.take(i as int) =~= fs);
    found
}

/// The button a profile shows.
#[derive(PartialEq, Eq, Structural, Clone, Copy, Debug)]
pub enum ButtonType {
    Edit,
    Follow,
    Unfollow,
}

/// The button on the profile of `address`: none for a visitor, `Edit` on
/// the user's own profile, else `Unfollow` or `Follow` as the user follows
/// `address` or not.
pub fn profile_button(session: &Option<SessionInfo>, address: &String, following: bool) -> (b:
    Option<ButtonType>)
    ensures
        match session {
            None => b is None,
            Some(s) => if s.account_info.address@ == address@ {
                b == Some(ButtonType::Edit)
            } else if following {
                b == Some(ButtonType::Unfollow)
            } else {
                b == Some(ButtonType::Follow)
            },
        },
{
    match session {
        None => None,
        Some(s) => if s.account_info.address == *address {
            Some(ButtonType::Edit)
        } else if following {
            Some(ButtonType::Unfollow)
        } else {
            Some(ButtonType::Follow)
        },
    }
}

/// The denomination of the coins a user sends.
pub const DENOM: &'static str = "stake";

/// The amount of a send form, as sent: the text read as a `u64` and
/// written back in decimal; nothing when it is not an amount.
pub fn send_amount(text: &str) -> (r: Option<String>)
    ensures
        match parse_u64_spec(text@) {
            None => r is None,
            Some(n) => r matches Some(s) && s@ == decimal(n as nat),
        },
{
    match parse_u64(text) {
        None => None,
        Some(n) => {
            let mut s = String::new();
            push_decimal(&mut s, n as u128);
            Some(s)
        },
    }
}

/// The count shown after a like or a repost: the count shown before, read
/// as an `i32` (0 when it is not one), plus one.
pub open spec fn bumped(text: Seq<char>) -> Seq<char> {
    let before: int = match parse_i32_spec(text) {
        None => 0,
        Some(n) => n as int,
    };
    signed_decimal(before + 1)
}

/// The count shown after a like or a repost; see [`bumped`].
pub fn bump_count(text: &str) -> (s: String)
    requires
        parse_i32_spec(text@) != Some(i32::MAX),
    ensures
        s@ == bumped(text@),
{
    let before = match parse_i32(text) {
        None => 0,
        Some(n) => n,
    };
    let mut s = String::new();
    push_signed(&mut s, before + 1);
    s
}

} // verus!
