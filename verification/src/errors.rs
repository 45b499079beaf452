//! The errors of the library.

use vstd::prelude::*;
use vstd::string::*;
use crate::text::decimal_text;

verus! {

/// Everything that can go wrong in the store, the server and the client.
#[derive(Debug)]
pub enum KvsError {
    /// A file or a socket failed; the text says how.
    IOError(String),
    /// The key that was to be removed has no value.
    KeyNotExist(String),
    /// The index points at something that is no `SET` record of the key.
    InvalidDataEntry,
    /// A record could not be written.
    SerializationError,
    /// A record could not be read.
    DeserializationError,
    /// No engine of that name is known, or it is not the one at hand.
    UnsupportedEngine,
    /// The data file does not begin with a header.
    InvalidDatabaseFormat,
    /// The data file was written in another version of the format: the
    /// version found, and the version of this library.
    IncompatibleDatabaseVersion(u64, u64),
    /// Kept for protocols to come.
    UnknownProtocol,
    /// The server answered with a status that is neither success nor a
    /// missing key.
    ServerError,
}

/// What a `KvsError` is, mathematically.
pub enum KvsErrorView {
    IOError(Seq<char>),
    KeyNotExist(Seq<char>),
    InvalidDataEntry,
    SerializationError,
    DeserializationError,
    UnsupportedEngine,
    InvalidDatabaseFormat,
    IncompatibleDatabaseVersion(u64, u64),
    UnknownProtocol,
    ServerError,
}

impl View for KvsError {
    type V = KvsErrorView;

    open spec fn view(&self) -> KvsErrorView {
        match self {
            KvsError::IOError(s) => KvsErrorView::IOError(s@),
            KvsError::KeyNotExist(s) => KvsErrorView::KeyNotExist(s@),
            KvsError::InvalidDataEntry => KvsErrorView::InvalidDataEntry,
            KvsError::SerializationError => KvsErrorView::SerializationError,
            KvsError::DeserializationError => KvsErrorView::DeserializationError,
            KvsError::UnsupportedEngine => KvsErrorView::UnsupportedEngine,
            KvsError::InvalidDatabaseFormat => KvsErrorView::InvalidDatabaseFormat,
            KvsError::IncompatibleDatabaseVersion(a, b) => KvsErrorView::IncompatibleDatabaseVersion(*a, *b),
            KvsError::UnknownProtocol => KvsErrorView::UnknownProtocol,
            KvsError::ServerError => KvsErrorView::ServerError,
        }
    }
}

/// What an error says of itself.
pub open spec fn message_text(e: KvsErrorView) -> Seq<char> {
    match e {
        KvsErrorView::IOError(text) => text,
        KvsErrorView::KeyNotExist(key) => "Key \""@ + key + "\" does not exist"@,
        KvsErrorView::InvalidDataEntry => "Invalid data entry"@,
        KvsErrorView::SerializationError => "Serialization error"@,
        KvsErrorView::DeserializationError => "Deserialization error"@,
        KvsErrorView::UnsupportedEngine => "Unsupported engine type"@,
        KvsErrorView::InvalidDatabaseFormat => "Invalid database file format"@,
        KvsErrorView::IncompatibleDatabaseVersion(found, current) => "Found incompatible database version "@
            + decimal_text(found as nat) + ", current version "@ + decimal_text(current as nat),
        KvsErrorView::UnknownProtocol => "Unknown protocol"@,
        KvsErrorView::ServerError => "Server internal error"@,
    }
}

impl KvsError {
    /// What the error says of itself.
    pub fn message(&self) -> (r: String)
        ensures
            r@ == message_text(self@),
    {
        match self {
            KvsError::IOError(text) => text.clone(),
            KvsError::KeyNotExist(key) => {
                let mut text = String::from_str("Key \"");
                text.append(key.as_str());
                text.append("\" does not exist");
                text
            },
            KvsError::InvalidDataEntry => String::from_str("Invalid data entry"),
            KvsError::SerializationError => String::from_str("Serialization error"),
            KvsError::DeserializationError => String::from_str("Deserialization error"),
            KvsError::UnsupportedEngine => String::from_str("Unsupported engine type"),
            KvsError::InvalidDatabaseFormat => String::from_str("Invalid database file format"),
            KvsError::IncompatibleDatabaseVersion(found, current) => {
                let mut text = String::from_str("Found incompatible database version ");
                text.append(crate::text::decimal(*found).as_str());
                text.append(", current version ");
                text.append(crate::text::decimal(*current).as_str());
                text
            },
            KvsError::UnknownProtocol => String::from_str("Unknown protocol"),
            KvsError::ServerError => String::from_str("Server internal error"),
        }
    }
}

} // verus!
