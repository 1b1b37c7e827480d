//! Random tokens and session names.

use vstd::prelude::*;

use crate::numerals::{hex, hex_text};

verus! {

/// Asks the operating system for `count` random bytes, with `fill_bytes` of
/// `rand`'s `OsRng`.
///
/// The contract claims no more than that there are so many of them: which they
/// are is up to chance. Where the operating system has no randomness to give,
/// the call panics, whatever the count.
#[verifier::external_body]
fn random_bytes(count: usize) -> (bytes: Vec<u8>)
    ensures
        bytes@.len() == count,
{
    let mut bytes = vec![0u8; count];
    rand::RngCore::fill_bytes(&mut rand::rngs::OsRng, &mut bytes);
    bytes
}

/// Whether `name` is what `count` bytes look like in hexadecimal notation.
pub open spec fn is_random_name(name: Seq<char>, count: int) -> bool {
    exists|bytes: Seq<u8>| bytes.len() == count && name == #[trigger] hex_text(bytes)
}

/// A new bearer token: 256 bits of randomness, in hexadecimal notation.
pub fn generate_token() -> (token: String)
    ensures
        is_random_name(token@, 32),
        token@.len() == 64,
{
    let bytes = random_bytes(32);
    hex(bytes.as_slice())
}

/// A new name for a streaming session: 128 bits of randomness, in hexadecimal
/// notation.
pub fn new_session_id() -> (id: String)
    ensures
        is_random_name(id@, 16),
        id@.len() == 32,
{
    let bytes = random_bytes(16);
    hex(bytes.as_slice())
}

/// A random name has two digits for every random byte, and tells which bytes they are.
pub proof fn law_random_names_are_as_long_as_their_bytes(name: Seq<char>, count: int)
    requires
        is_random_name(name, count),
    ensures
        name.len() == 2 * count,
        exists|bytes: Seq<u8>| bytes.len() == count && #[trigger] hex_text(bytes) == name,
{
}

} // verus!
