//! A 128-bit block cipher in the Rijndael style, with a message codec on top.
//!
//! The cipher works on 16-byte blocks viewed as a 4x4 matrix in row-major
//! order: byte substitution through a fixed table, cyclic row rotation,
//! column mixing over GF(2^8), and a round-key xor, driven by a key schedule
//! of eleven round keys. Unlike the standard round structure, column mixing
//! runs on every round, the final one included; encryption and decryption
//! mirror one another exactly, so the two remain inverses. The codec extends
//! the block primitive to byte streams of any length with a sentinel padding
//! of 17 to 32 bytes that the decoder strips again.
use vstd::prelude::*;

pub mod block;
pub mod data;
pub mod gf;
pub mod sbox;

pub use block::AESBlock;
pub use block::DecryptedState;
pub use block::EncryptedState;
pub use data::AESData;

verus! {

/// The ways a transform can reject its input: a block that is not exactly 16
/// bytes, a key schedule with fewer than two round keys (or a round key that
/// is not 16 bytes), or an empty message handed to the encoder.
#[derive(Debug, Clone, Copy, PartialEq, Eq, Structural)]
pub enum AESError {
    InvalidBlockLength,
    ShortSchedule,
    EmptyMessage,
}

/// Derives a 16-byte cipher key from arbitrary password bytes: the first 16
/// bytes of the password, zero-padded when the password is shorter.
pub fn generate_key(password: &[u8]) -> (key: Vec<u8>)
    ensures
        key@.len() == 16,
        forall|i: int|
            0 <= i < 16 ==> key@[i] == (if i < password@.len() {
                password@[i]
            } else {
                0u8
            }),
{
    let mut key: Vec<u8> = Vec::new();
    let mut i: usize = 0;
    while i < 16
        invariant
            i <= 16,
            key@.len() == i,
            forall|j: int|
                0 <= j < i ==> key@[j] == (if j < password@.len() {
                    password@[j]
                } else {
                    0u8
                }),
        decreases 16 - i,
    {
        if i < password.len() {
            key.push(password[i]);
        } else {
            key.push(0);
        }
        i = i + 1;
    }
    key
}

} // verus!
