//! Blobs in motion: digests, discovery by trial decryption, and sync.

pub mod convergence;
pub mod hash;
pub mod ownership;
pub mod scan;
pub mod sync;
