//! The key schedule used by the secure channel.
//!
//! The real cryptographic vault (key generation, ECDH, AEAD) is an external
//! collaborator consumed through a narrow interface and is out of scope
//! here. This module supplies the channel's deterministic key schedule as
//! plain byte functions so that the handshake state machine and the payload
//! relay can be specified and proved end to end: a party's public value is
//! the bytewise complement of its secret, the shared transport key is the
//! bytewise exclusive-or of one party's secret with the other's public
//! value (which is symmetric, as a Diffie-Hellman exchange is), and payload
//! protection is a keystream exclusive-or that is its own inverse. None of
//! this is a secrecy claim; it is the shape of the protocol, made exact.

use vstd::prelude::*;

verus! {

/// The length, in bytes, of secrets, public values and transport keys.
pub const KEY_LENGTH: usize = 32;

/// The public value derived from a secret: its bytewise complement.
pub open spec fn kex_public_spec(secret: Seq<u8>) -> Seq<u8> {
    Seq::new(secret.len(), |i: int| secret[i] ^ 0xFF)
}

/// The shared transport key derived from an own secret and a peer's public
/// value of the same length: their bytewise exclusive-or.
pub open spec fn kex_shared_spec(secret: Seq<u8>, peer_public: Seq<u8>) -> Seq<u8> {
    Seq::new(secret.len(), |i: int| secret[i] ^ peer_public[i])
}

/// The keystream transform of `data` under `key` (cycled): applying it
/// twice with the same key restores the input.
pub open spec fn cipher_spec(key: Seq<u8>, data: Seq<u8>) -> Seq<u8> {
    Seq::new(data.len(), |i: int| data[i] ^ key[i % key.len() as int])
}

/// Both parties derive the same transport key: exchanging one side's secret
/// for the other side's public value leaves the shared key unchanged.
pub proof fn lemma_kex_shared_symmetric(a: Seq<u8>, b: Seq<u8>)
    requires
        a.len() == b.len(),
    ensures
        kex_shared_spec(a, kex_public_spec(b)) == kex_shared_spec(b, kex_public_spec(a)),
{
    assert forall|i: int| 0 <= i < a.len() implies kex_shared_spec(a, kex_public_spec(b))[i]
        == kex_shared_spec(b, kex_public_spec(a))[i] by {
        let x = a[i];
        let y = b[i];
        assert(x ^ (y ^ 0xFF) == y ^ (x ^ 0xFF)) by (bit_vector);
    }
    assert(kex_shared_spec(a, kex_public_spec(b)) =~= kex_shared_spec(b, kex_public_spec(a)));
}

/// The keystream transform is an involution: applying it twice under the
/// same non-empty key restores the data.
pub proof fn lemma_cipher_roundtrip(key: Seq<u8>, data: Seq<u8>)
    requires
        key.len() > 0,
    ensures
        cipher_spec(key, cipher_spec(key, data)) == data,
{
    let once = cipher_spec(key, data);
    let twice = cipher_spec(key, once);
    assert forall|i: int| 0 <= i < data.len() implies twice[i] == data[i] by {
        let d = data[i];
        let k = key[i % key.len() as int];
        assert((d ^ k) ^ k == d) by (bit_vector);
    }
    assert(twice =~= data);
}

/// The keystream transform keeps the data's length.
pub proof fn lemma_cipher_len(key: Seq<u8>, data: Seq<u8>)
    ensures
        cipher_spec(key, data).len() == data.len(),
{
}

/// Derives the public value of a secret.
pub fn kex_public(secret: &Vec<u8>) -> (r: Vec<u8>)
    ensures
        r@ == kex_public_spec(secret@),
{
    let mut r: Vec<u8> = Vec::new();
    let mut i: usize = 0;
    while i < secret.len()
        invariant
            i <= secret.len(),
            r@ == kex_public_spec(secret@).subrange(0, i as int),
        decreases secret.len() - i,
    {
        r.push(secret[i] ^ 0xFF);
        assert(r@ =~= kex_public_spec(secret@).subrange(0, i + 1));
        i = i + 1;
    }
    assert(r@ =~= kex_public_spec(secret@));
    r
}

/// Derives the shared transport key from an own secret and a peer's public
/// value of the same length.
pub fn kex_shared(secret: &Vec<u8>, peer_public: &Vec<u8>) -> (r: Vec<u8>)
    requires
        secret@.len() == peer_public@.len(),
    ensures
        r@ == kex_shared_spec(secret@, peer_public@),
{
    let mut r: Vec<u8> = Vec::new();
    let mut i: usize = 0;
    while i < secret.len()
        invariant
            i <= secret.len(),
            secret@.len() == peer_public@.len(),
            r@ == kex_shared_spec(secret@, peer_public@).subrange(0, i as int),
        decreases secret.len() - i,
    {
        r.push(secret[i] ^ peer_public[i]);
        assert(r@ =~= kex_shared_spec(secret@, peer_public@).subrange(0, i + 1));
        i = i + 1;
    }
    assert(r@ =~= kex_shared_spec(secret@, peer_public@));
    r
}

/// Applies the keystream transform of `key` to `data`. Encrypting and
/// decrypting are the same operation.
pub fn cipher(key: &Vec<u8>, data: &Vec<u8>) -> (r: Vec<u8>)
    requires
        key@.len() > 0,
    ensures
        r@ == cipher_spec(key@, data@),
{
    let mut r: Vec<u8> = Vec::new();
    let mut i: usize = 0;
    while i < data.len()
        invariant
            i <= data.len(),
            key@.len() > 0,
            r@ == cipher_spec(key@, data@).subrange(0, i as int),
        decreases data.len() - i,
    {
        r.push(data[i] ^ key[i % key.len()]);
        assert(r@ =~= cipher_spec(key@, data@).subrange(0, i + 1));
        i = i + 1;
    }
    assert(r@ =~= cipher_spec(key@, data@));
    r
}

} // verus!
