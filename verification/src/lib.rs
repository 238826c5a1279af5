//! Address-free dead-drop messaging: the rules of the message store, the
//! discovery scanner and the content-addressed sync engine, stated over plain
//! values and proved.
//!
//! A sender encrypts a message under the recipient's public key and leaves
//! the ciphertext in a shared directory, a dropbox. Nothing on the blob says
//! whom it is for: the recipient finds it by trying the private key on every
//! blob. A sync engine carries blobs between the local outbox and the
//! dropboxes and knows a blob by the digest of its bytes.
//!
//! The library never touches the disk. Callers observe the directories they
//! care about into a [`storage::fsio::FsView`], hand it to the functions here,
//! and carry out the writes that come back.
//!
//! - [`storage`]: the dropbox paths of each platform, the observed state of
//!   directories, and the step rule of the Blob Writer.
//! - [`crypto`]: loading keys and RSA-OAEP through the `openssl` crate.
//! - [`message`]: digests, the discovery scanner, the sync engine, and what
//!   is proved of them.
//! - [`commands`] and [`cli`]: which command the arguments call for, and what
//!   each command computes.

pub mod cli;
pub mod commands;
pub mod config;
pub mod crypto;
pub mod errors;
pub mod message;
pub mod storage;
