//! Keys and the asymmetric cipher.

pub mod engine;
pub mod rsa;
