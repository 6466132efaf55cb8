//! Key derivation for the encryption handshake: the client's seed and phrase
//! are laid into a fixed buffer whose MD5 digest is the session key.

use vstd::prelude::*;
use crate::bytes::{copy_range, push_bytes};

verus! {

/// Length of the seed inside a handshake payload.
pub const KEY_SEED_LEN: usize = 4;

/// Length of the phrase inside a handshake payload.
pub const KEY_PHRASE_LEN: usize = 32;

/// Length of the buffer that is hashed.
pub const BASE_KEY_LEN: usize = 44;

/// Where a protocol revision keeps seed and phrase in the payload of an
/// encryption handshake.
#[derive(Clone, Copy, Debug, PartialEq, Eq, Structural)]
pub struct KeyLayout {
    pub phrase_offset: usize,
    pub seed_offset: usize,
}

impl KeyLayout {
    /// The shortest payload that holds both fields.
    pub open spec fn spec_min_len(self) -> int {
        if self.phrase_offset + 32 >= self.seed_offset + 4 {
            self.phrase_offset + 32
        } else {
            self.seed_offset + 4
        }
    }
}

/// The layout of the one protocol revision in use: phrase at byte 36, seed
/// at byte 100.
pub open spec fn spec_current_layout() -> KeyLayout {
    KeyLayout { phrase_offset: 36, seed_offset: 100 }
}

/// The layout of the protocol revision in use.
pub fn current_layout() -> (l: KeyLayout)
    ensures
        l == spec_current_layout(),
        l.spec_min_len() == 104,
{
    KeyLayout { phrase_offset: 36, seed_offset: 100 }
}

/// The buffer that is hashed: the magic number 0x12345678 little-endian, the
/// seed, the protocol version marker 0xD417, two zero bytes, the phrase.
pub open spec fn spec_base_key(seed: Seq<u8>, phrase: Seq<u8>) -> Seq<u8> {
    seq![0x78u8, 0x56u8, 0x34u8, 0x12u8] + seed + seq![0xd4u8, 0x17u8, 0u8, 0u8] + phrase
}

/// The MD5 digest of `data`.
pub uninterp spec fn md5_digest(data: Seq<u8>) -> Seq<u8>;

/// Calls `md5::compute`, which hashes the bytes it is given and returns the
/// 16 bytes of the digest. The contract names that digest; it says nothing
/// of its value.
#[verifier::external_body]
fn md5_compute(data: &[u8]) -> (digest: [u8; 16])
    ensures
        digest@ == md5_digest(data@),
{
    md5::compute(data).0
}

/// Builds the buffer that is hashed from a seed of 4 and a phrase of 32
/// bytes.
pub fn base_key(seed: &[u8], phrase: &[u8]) -> (buf: Vec<u8>)
    requires
        seed@.len() == 4,
        phrase@.len() == 32,
    ensures
        buf@ == spec_base_key(seed@, phrase@),
        buf@.len() == 44,
{
    let mut buf: Vec<u8> = Vec::new();
    buf.push(0x78u8);
    buf.push(0x56u8);
    buf.push(0x34u8);
    buf.push(0x12u8);
    push_bytes(&mut buf, seed);
    buf.push(0xd4u8);
    buf.push(0x17u8);
    buf.push(0u8);
    buf.push(0u8);
    push_bytes(&mut buf, phrase);
    assert(buf@ =~= spec_base_key(seed@, phrase@));
    buf
}

/// Derives the session key from a seed of 4 and a phrase of 32 bytes.
pub fn derive_key(seed: &[u8], phrase: &[u8]) -> (key: [u8; 16])
    requires
        seed@.len() == 4,
        phrase@.len() == 32,
    ensures
        key@ == md5_digest(spec_base_key(seed@, phrase@)),
{
    let buf = base_key(seed, phrase);
    md5_compute(buf.as_slice())
}

/// The key that the payload of an encryption handshake gives under `layout`.
pub open spec fn spec_key_from_payload(payload: Seq<u8>, layout: KeyLayout) -> Seq<u8> {
    md5_digest(
        spec_base_key(
            payload.subrange(layout.seed_offset as int, layout.seed_offset + 4),
            payload.subrange(layout.phrase_offset as int, layout.phrase_offset + 32),
        ),
    )
}

/// Derives the session key from the payload of an encryption handshake, or
/// gives `None` where the payload is too short to hold seed and phrase.
pub fn key_from_payload(payload: &[u8], layout: &KeyLayout) -> (key: Option<[u8; 16]>)
    ensures
        key is Some <==> payload@.len() >= layout.spec_min_len(),
        key is Some ==> key->Some_0@ == spec_key_from_payload(payload@, *layout),
{
    let n: usize = payload.len();
    if n < 32 || layout.phrase_offset > n - 32 || n < 4 || layout.seed_offset > n - 4 {
        return None;
    }
    let seed = copy_range(payload, layout.seed_offset, layout.seed_offset + 4);
    let phrase = copy_range(payload, layout.phrase_offset, layout.phrase_offset + 32);
    Some(derive_key(seed.as_slice(), phrase.as_slice()))
}

/// Equal seeds and phrases give equal keys.
pub proof fn lemma_derivation_deterministic(
    seed_a: Seq<u8>,
    phrase_a: Seq<u8>,
    seed_b: Seq<u8>,
    phrase_b: Seq<u8>,
)
    requires
        seed_a == seed_b,
        phrase_a == phrase_b,
    ensures
        md5_digest(spec_base_key(seed_a, phrase_a)) == md5_digest(spec_base_key(seed_b, phrase_b)),
{
}

} // verus!
