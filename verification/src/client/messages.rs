//! The messages a logged-in user sends to the chain: coins to another
//! address, a like of a post, a repost of a post.
use crate::client::components::SessionInfo;
use crate::client::error::ClientError;
use crate::client::pages::{send_amount, DENOM};
use crate::text::{decimal, parse_u64_spec};
use vstd::prelude::*;

verus! {

/// The type of a message sending coins.
pub const MSG_BANK_SEND: &'static str = "/cosmos.bank.v1beta1.MsgSend";

/// The type of a message liking a post.
pub const MSG_TYPE_LIKE: &'static str = "/blawgd.MsgLikePost";

/// The type of a message reposting a post.
pub const MSG_TYPE_REPOST: &'static str = "/blawgd.MsgRepost";

/// An amount of coins of one denomination; the amount in decimal.
#[derive(Debug)]
pub struct Coin {
    pub denom: String,
    pub amount: String,
}

/// Coins sent from one address to another.
#[derive(Debug)]
pub struct SendMessage {
    pub from_address: String,
    pub to_address: String,
    pub amount: Vec<Coin>,
}

/// A like of a post.
#[derive(Debug)]
pub struct LikeMessage {
    pub creator: String,
    pub post_id: String,
    pub amount: u64,
}

/// A repost of a post.
#[derive(Debug)]
pub struct RepostMessage {
    pub creator: String,
    pub post_id: String,
}

/// The message of the send form: `amount_text` of the coins of [`DENOM`]
/// from the logged-in user to `to_address`. Fails with `InvalidAmount` when
/// the amount is not a `u64`, else with `NotLoggedIn` when nobody is logged
/// in.
pub fn send_message(session: &Option<SessionInfo>, to_address: String, amount_text: &str) -> (r:
    Result<SendMessage, ClientError>)
    ensures
        match parse_u64_spec(amount_text@) {
            None => r == Err::<SendMessage, ClientError>(ClientError::InvalidAmount),
            Some(n) => match session {
                None => r == Err::<SendMessage, ClientError>(ClientError::NotLoggedIn),
                Some(s) => r matches Ok(m) && m.from_address@ == s.account_info.address@
                    && m.to_address@ == to_address@ && m.amount@.len() == 1
                    && m.amount@[0].denom@ == DENOM@ && m.amount@[0].amount@ == decimal(n as nat),
            },
        },
{
    let amount = match send_amount(amount_text) {
        None => {
            return Err(ClientError::InvalidAmount);
        },
        Some(a) => a,
    };
    match session {
        None => Err(ClientError::NotLoggedIn),
        Some(s) => {
            let coin = Coin { denom: String::from_str(DENOM), amount };
            Ok(SendMessage { from_address: s.account_info.address.clone(), to_address, amount: vec![coin] })
        },
    }
}

/// The message liking post `post_id` once, from the logged-in user; fails
/// with `NotLoggedIn` when nobody is logged in.
pub fn like_message(session: &Option<SessionInfo>, post_id: &String) -> (r: Result<
    LikeMessage,
    ClientError,
>)
    ensures
        match session {
            None => r == Err::<LikeMessage, ClientError>(ClientError::NotLoggedIn),
            Some(s) => r matches Ok(m) && m.creator@ == s.account_info.address@ && m.post_id@
                == post_id@ && m.amount == 1,
        },
{
    match session {
        None => Err(ClientError::NotLoggedIn),
        Some(s) => Ok(
            LikeMessage { creator: s.account_info.address.clone(), post_id: post_id.clone(), amount: 1 },
        ),
    }
}

/// The message reposting post `post_id`, from the logged-in user; fails
/// with `NotLoggedIn` when nobody is logged in.
pub fn repost_message(session: &Option<SessionInfo>, post_id: &String) -> (r: Result<
    RepostMessage,
    ClientError,
>)
    ensures
        match session {
            None => r == Err::<RepostMessage, ClientError>(ClientError::NotLoggedIn),
            Some(s) => r matches Ok(m) && m.creator@ == s.account_info.address@ && m.post_id@
                == post_id@,
        },
{
    match session {
        None => Err(ClientError::NotLoggedIn),
        Some(s) => Ok(RepostMessage { creator: s.account_info.address.clone(), post_id: post_id.clone() }),
    }
}

} // verus!
