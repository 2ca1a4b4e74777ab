//! The keys under which the chain stores what the client reads.
use vstd::prelude::*;
use vstd::string::StringExecFns;

verus! {

/// `prefix`, `a`, and, when given, `-` and `b`.
pub open spec fn joined_key(prefix: Seq<char>, a: Seq<char>, b: Option<Seq<char>>) -> Seq<char> {
    match b {
        None => prefix + a,
        Some(b) => prefix + a + "-"@ + b,
    }
}

fn join(prefix: &str, a: &str, b: Option<&str>) -> (s: String)
    ensures
        s@ == joined_key(
            prefix@,
            a@,
            match b {
                None => None,
                Some(x) => Some(x@),
            },
        ),
{
    let mut s = String::from_str(prefix);
    s.append(a);
    match b {
        None => {},
        Some(x) => {
            s.append("-");
            s.append(x);
        },
    }
    s
}

/// The key of the `order`-th post of `address`: `up-{address}-{order}`.
pub fn user_post_key(address: String, order: String) -> (k: String)
    ensures
        k@ == joined_key("up-"@, address@, Some(order@)),
{
    join("up-", address.as_str(), Some(order.as_str()))
}

/// The key of the `order`-th answer to `parent_post`: `sp-{parent}-{order}`.
pub fn subpost_key(parent_post: String, order: String) -> (k: String)
    ensures
        k@ == joined_key("sp-"@, parent_post@, Some(order@)),
{
    join("sp-", parent_post.as_str(), Some(order.as_str()))
}

/// The key of the post with id `order`: `p-{order}`.
pub fn post_key(order: String) -> (k: String)
    ensures
        k@ == joined_key("p-"@, order@, None),
{
    join("p-", order.as_str(), None)
}

/// The key of the account of `address`: `ac-{address}`.
pub fn account_info_key(address: String) -> (k: String)
    ensures
        k@ == joined_key("ac-"@, address@, None),
{
    join("ac-", address.as_str(), None)
}

/// The key of the following list of `address`: `f-{address}`.
pub fn following_key(address: String) -> (k: String)
    ensures
        k@ == joined_key("f-"@, address@, None),
{
    join("f-", address.as_str(), None)
}

/// The path of a key in the chain's store: the key, then the name of the
/// module's store, `blawgd`.
pub fn get_default_path(key: &[u8]) -> (path: Vec<&[u8]>)
    ensures
        path@.len() == 2,
        path@[0]@ == key@,
        path@[1]@ == crate::codec::utf8("blawgd"@),
{
    vec![key, "blawgd".as_bytes()]
}

/// Keys of different kinds never coincide: each kind begins with its own
/// letter.
pub proof fn law_key_kinds_differ(a: Seq<char>, b: Seq<char>)
    ensures
        joined_key("up-"@, a, Some(b))[0] == 'u',
        joined_key("sp-"@, a, Some(b))[0] == 's',
        joined_key("p-"@, a, None)[0] == 'p',
        joined_key("ac-"@, a, None)[0] == 'a',
        joined_key("f-"@, a, None)[0] == 'f',
{
    reveal_strlit("up-");
    reveal_strlit("sp-");
    reveal_strlit("p-");
    reveal_strlit("ac-");
    reveal_strlit("f-");
}

} // verus!
