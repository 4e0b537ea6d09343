//! Two verified cryptographic primitives built to demonstrate attacks against
//! them: the Rijndael (AES-128) key schedule, which expands a 16-byte key into
//! the 44 round-key words of the cipher, and an MD4 length-extension forger,
//! which turns an observed MAC into a valid MAC for a message with an
//! attacker-chosen suffix appended, without knowledge of the secret key.

pub mod aes;
pub mod length_extension;
