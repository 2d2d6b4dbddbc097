pub mod base58;
pub mod hashes;
pub mod invoice;
pub mod script;
pub mod segwit;
pub mod watch;
