//! Text codec for authenticated symmetric encryption.
//!
//! A message travels as one lowercase hexadecimal string: the sealed bytes
//! followed by the 24-byte nonce, with nothing in between. The key travels
//! beside it as the hexadecimal form of its 32 bytes.

pub mod codec;
pub mod error;
pub mod handlers;
pub mod hexcode;
pub mod models;
pub mod secretbox;
pub mod server;
