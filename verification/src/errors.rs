//! The errors that the library reports.

use vstd::prelude::*;
use vstd::string::*;

verus! {

/// A failure of the cipher engine or of key handling. There is one kind only:
/// callers cannot tell a wrong key from a damaged ciphertext by the variant.
#[derive(Debug)]
pub enum CryptoError {
    /// What went wrong, as text: the step that failed, a colon, and the
    /// engine's own description.
    OpenSsl(String),
}

impl CryptoError {
    /// The text of the error.
    pub open spec fn message(self) -> Seq<char> {
        match self {
            CryptoError::OpenSsl(text) => text@,
        }
    }

    /// The error as it is shown to a user: its text, unchanged.
    pub fn to_string(&self) -> (shown: String)
        ensures
            shown@ == self.message(),
    {
        match self {
            CryptoError::OpenSsl(text) => text.clone(),
        }
    }
}

/// A failure to use what the observed directories hold.
#[derive(Debug)]
pub enum StorageError {
    /// No directory was observed at this path.
    MissingDirectory(String),
    /// The entry at this path could not be read as a file.
    Unreadable(String),
}

impl StorageError {
    /// The path that the error is about.
    pub open spec fn path(self) -> Seq<char> {
        match self {
            StorageError::MissingDirectory(path) => path@,
            StorageError::Unreadable(path) => path@,
        }
    }

    /// The error as it is shown to a user.
    pub fn to_string(&self) -> (shown: String)
        ensures
            shown@ == match *self {
                StorageError::MissingDirectory(path) => "not a directory: "@ + path@,
                StorageError::Unreadable(path) => "cannot read: "@ + path@,
            },
    {
        match self {
            StorageError::MissingDirectory(path) => {
                String::from_str("not a directory: ").concat(path.as_str())
            },
            StorageError::Unreadable(path) => {
                String::from_str("cannot read: ").concat(path.as_str())
            },
        }
    }
}

/// A command line that asks for something that cannot be done.
#[derive(Clone, Copy, Debug, PartialEq, Eq, Structural)]
pub enum UsageError {
    /// Decryption was asked for without a blob to decrypt.
    PathRequired,
}

impl UsageError {
    /// The error as it is shown to a user.
    pub fn to_string(&self) -> (shown: String)
        ensures
            shown@ == "--path is required for --decrypt"@,
    {
        match self {
            UsageError::PathRequired => String::from_str("--path is required for --decrypt"),
        }
    }
}

/// A failure of a command: the command line asked for what cannot be done,
/// or the cipher engine or a key failed.
#[derive(Debug)]
pub enum CommandError {
    /// The command line is at fault.
    Usage(UsageError),
    /// A key could not be loaded, or the cipher failed.
    Crypto(CryptoError),
}

impl CommandError {
    /// The text of the error.
    pub open spec fn message(self) -> Seq<char> {
        match self {
            CommandError::Usage(_) => "--path is required for --decrypt"@,
            CommandError::Crypto(e) => e.message(),
        }
    }

    /// The error as it is shown to a user.
    pub fn to_string(&self) -> (shown: String)
        ensures
            shown@ == self.message(),
    {
        match self {
            CommandError::Usage(e) => e.to_string(),
            CommandError::Crypto(e) => e.to_string(),
        }
    }
}

} // verus!
