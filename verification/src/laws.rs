//! What the library's results mean to those who read them.
//!
//! Each module states how a reader (a SOCKS client, a stub resolver, `nft`, a
//! person) takes a result apart, and proves that the reader finds in it what
//! was put in.
pub mod addresses;
pub mod bridging;
pub mod circuits;
pub mod firewall;
pub mod keys;
pub mod processes;
pub mod reports;
pub mod texts;
pub mod wire;
