//! The client side of the EteSync journal protocol.
//!
//! A [`Journal`] holds an encrypted description of a collection, an [`Entry`] one
//! encrypted change of it, and a [`UserInfo`] the encrypted key pair of a user. Each
//! carries an authentication tag that is checked before anything is decrypted. The
//! managers ([`JournalManager`], [`EntryManager`], [`UserInfoManager`]) and the
//! [`Authenticator`] say which HTTP request each operation of the service takes; sending
//! it, and turning JSON into values, is left to the caller.
//!
//! The ciphers themselves are behind the traits [`CryptoManager`] and
//! [`AsymmetricKeyPair`]. Nothing is assumed of an implementation: the contracts say which
//! bytes it is handed and what is made of whatever it returns.
//!
//! What the operations are for is stated, and proved, in [`laws`].
//!
//! Running out of memory, which any growing string or vector can meet, is outside the
//! contracts.

#![allow(unused_imports)]

pub mod auth;
pub mod bytes;
pub mod codec;
pub mod crypto;
pub mod entry;
pub mod error;
pub mod journal;
pub mod laws;
pub mod request;
pub mod service;
pub mod text;
pub mod user_info;
pub mod web_address;

pub use crate::auth::{test_reset, user_agent, Authenticator, APP_USER_AGENT, SERVICE_API_URL};
pub use crate::crypto::{AsymmetricKeyPair, CryptoManager, HMAC_SIZE};
pub use crate::entry::{Entry, EntryJson};
pub use crate::error::Error;
pub use crate::journal::{Journal, JournalJson, JournalStatus};
pub use crate::request::{Field, Method, Request};
pub use crate::service::{EntryManager, JournalManager, UserInfoManager};
pub use crate::user_info::{UserInfo, UserInfoJson};
