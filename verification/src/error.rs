//! What can go wrong.

use vstd::prelude::*;

verus! {

/// Why an operation failed.
#[derive(Debug, PartialEq, Eq)]
pub enum Error {
    /// An authentication tag is not the one that was calculated.
    HmacMismatch,
    /// The uid of an entry is not hexadecimal.
    UndecodableUid,
    /// A key pair was asked of a user info that holds none.
    NoKeypair,
    /// A user info that holds no content was to be verified.
    NoContent,
    /// A user info without an owner was to be updated or deleted.
    OwnerUnset,
    /// An address is not a URL.
    InvalidUrl,
    /// A text cannot stand in an HTTP header.
    InvalidHeader,
    /// A cryptographic operation failed, for the reason given.
    Crypto(String),
}

impl Error {
    /// What the error says of itself.
    pub open spec fn message_text(&self) -> Seq<char> {
        match self {
            Error::HmacMismatch => "HMAC mismatch"@,
            Error::UndecodableUid => "Failed decoding uid"@,
            Error::NoKeypair => "Can't get keypair for someone else's user info"@,
            Error::NoContent => "Can't verify someone else's user info"@,
            Error::OwnerUnset => "Owner is unset"@,
            Error::InvalidUrl => "Invalid URL"@,
            Error::InvalidHeader => "Invalid header"@,
            Error::Crypto(reason) => reason@,
        }
    }

    /// A sentence for the user.
    pub fn message(&self) -> (r: String)
        ensures
            r@ == self.message_text(),
    {
        match self {
            Error::HmacMismatch => "HMAC mismatch".to_owned(),
            Error::UndecodableUid => "Failed decoding uid".to_owned(),
            Error::NoKeypair => "Can't get keypair for someone else's user info".to_owned(),
            Error::NoContent => "Can't verify someone else's user info".to_owned(),
            Error::OwnerUnset => "Owner is unset".to_owned(),
            Error::InvalidUrl => "Invalid URL".to_owned(),
            Error::InvalidHeader => "Invalid header".to_owned(),
            Error::Crypto(reason) => reason.clone(),
        }
    }
}

} // verus!
