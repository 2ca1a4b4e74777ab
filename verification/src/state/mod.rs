//! The state that the program keeps in its accounts.
pub mod address;
pub mod account;
pub mod post;
pub mod program_state;
pub mod following;
