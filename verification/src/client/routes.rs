//! Which page a URL of the site shows.
use crate::client::error::ClientError;
use crate::client::host::{service_address, Host};
use crate::text::{has_prefix, starts_with, strip_prefix};
use vstd::prelude::*;
use vstd::string::StringExecFns;

verus! {

/// The pages of the site.
#[derive(PartialEq, Eq, Structural, Clone, Copy, Debug)]
pub enum Page {
    Followings,
    Post,
    EditProfile,
    Timeline,
    Profile,
    Login,
    Faucet,
    Send,
    Home,
}

/// The page a path below the site's address shows: the first of the page
/// names that the path begins with, in this order; the home page otherwise.
pub open spec fn page_for(path: Seq<char>) -> Page {
    if has_prefix(path, "followings"@) {
        Page::Followings
    } else if has_prefix(path, "post"@) {
        Page::Post
    } else if has_prefix(path, "edit-profile"@) {
        Page::EditProfile
    } else if has_prefix(path, "timeline"@) {
        Page::Timeline
    } else if has_prefix(path, "profile"@) {
        Page::Profile
    } else if has_prefix(path, "login"@) {
        Page::Login
    } else if has_prefix(path, "faucet"@) {
        Page::Faucet
    } else if has_prefix(path, "send"@) {
        Page::Send
    } else {
        Page::Home
    }
}

/// The page of a path; see [`page_for`].
pub fn page_of_path(path: &str) -> (p: Page)
    ensures
        p == page_for(path@),
{
    if starts_with(path, "followings") {
        Page::Followings
    } else if starts_with(path, "post") {
        Page::Post
    } else if starts_with(path, "edit-profile") {
        Page::EditProfile
    } else if starts_with(path, "timeline") {
        Page::Timeline
    } else if starts_with(path, "profile") {
        Page::Profile
    } else if starts_with(path, "login") {
        Page::Login
    } else if starts_with(path, "faucet") {
        Page::Faucet
    } else if starts_with(path, "send") {
        Page::Send
    } else {
        Page::Home
    }
}

/// The page that `url` shows: the site's address and `/` must begin it,
/// and what follows decides; see [`page_for`].
pub fn route(host: &Host, url: &str) -> (r: Result<Page, ClientError>)
    ensures
        ({
            let base = service_address(host@, Seq::empty()) + "/"@;
            &&& has_prefix(url@, base) ==> r == Ok::<Page, ClientError>(
                page_for(url@.skip(base.len() as int)),
            )
            &&& !has_prefix(url@, base) ==> r == Err::<Page, ClientError>(ClientError::UnknownUrl)
        }),
{
    let mut base = host.endpoint();
    base.append("/");
    match strip_prefix(url, base.as_str()) {
        None => Err(ClientError::UnknownUrl),
        Some(path) => Ok(page_of_path(path)),
    }
}

} // verus!
