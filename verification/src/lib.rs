//! Core rules of a classifieds marketplace: signed session tokens and the
//! session authority built on them, the similar-adverts matcher, and the
//! advert search pipeline.
//!
//! The library decides and computes on plain values. Reading and writing
//! the store, the token record, the clock and the mail are the caller's.

pub mod advert_queries;
pub mod claims;
pub mod failure;
pub mod model;
pub mod order;
pub mod password;
pub mod rating;
pub mod search;
pub mod session;
pub mod similar;
pub mod specs;
pub mod stats;
pub mod text;
pub mod token;
pub mod user_queries;

pub use advert_queries::{AdvertMutation, AdvertQuery};
pub use failure::{AuthError, Failure};
pub use session::{verify_access_token, Context, LoginResponse};
pub use stats::{QueryRoot, Statistics};
pub use token::Token;
pub use user_queries::{UserMutation, UserQuery};
