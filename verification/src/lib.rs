//! Paper backups of a secret: a signed main document that holds the secret
//! under authenticated encryption, and key shards of which any quorum
//! recovers it.

pub mod laws;
pub mod primitives;
pub mod shamir;
pub mod v0;
pub mod varint;
