//! The commands of the program: which one the arguments call for, and what
//! each computes from what the caller has read.

use vstd::prelude::*;
use crate::cli::Args;

pub mod decrypt;
pub mod encrypt;
pub mod inbox;

verus! {

/// What the program is to do.
#[derive(Clone, Copy, Debug, PartialEq, Eq, Structural)]
pub enum Command {
    /// Make a new key pair and store it.
    GenerateKeys,
    /// Ask for a message, encrypt it and store the blob.
    Encrypt,
    /// Decrypt one blob and print it.
    Decrypt,
    /// Print the messages that the private key opens.
    Inbox,
    /// List the dropboxes and do nothing more.
    Scan,
}

/// The command that `args` calls for. Where several flags are set, the first
/// of key generation, encryption, decryption and inbox wins; with none set,
/// the dropboxes are scanned.
pub open spec fn command_of(args: Args) -> Command {
    if args.generate_new_keys {
        Command::GenerateKeys
    } else if args.encrypt {
        Command::Encrypt
    } else if args.decrypt {
        Command::Decrypt
    } else if args.inbox {
        Command::Inbox
    } else {
        Command::Scan
    }
}

/// Decides which command to run.
pub fn dispatch(args: &Args) -> (command: Command)
    ensures
        command == command_of(*args),
{
    if args.generate_new_keys {
        return Command::GenerateKeys;
    }
    if args.encrypt {
        return Command::Encrypt;
    }
    if args.decrypt {
        return Command::Decrypt;
    }
    if args.inbox {
        return Command::Inbox;
    }
    Command::Scan
}

} // verus!
