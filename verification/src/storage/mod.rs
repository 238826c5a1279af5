//! Where blobs live: the platform's dropbox paths and the observed state of
//! the directories.

pub mod fsio;
pub mod paths;
