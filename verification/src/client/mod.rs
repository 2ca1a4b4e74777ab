//! The pure parts of the browser client: where to reach the chain, under
//! which keys its data is stored, how a long list is paged, how accounts
//! and posts are shown, and what the client keeps in local storage.
pub mod error;
pub mod host;
pub mod keys;
pub mod paging;
pub mod views;
pub mod light_store;
pub mod routes;
pub mod scroll;
pub mod storage;
pub mod verification;
pub mod components;
pub mod merkle;
pub mod fetch;
pub mod pages;
pub mod messages;
