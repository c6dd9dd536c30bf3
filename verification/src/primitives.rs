//! Byte-level identities used across the gossip protocol: public keys,
//! signatures, hashes and keypairs, with the cryptographic primitives that
//! act on them.

use solana_sdk::signer::Signer;
use vstd::prelude::*;

verus! {

/// A slot number of the ledger.
pub type Slot = u64;

/// Reasons for which a value received over the wire is rejected before any
/// signature is checked.
#[derive(Clone, Copy, Debug, PartialEq, Eq, Structural)]
pub enum SanitizeError {
    IndexOutOfBounds,
    ValueOutOfBounds,
    InvalidValue,
}

/// A 32-byte ed25519 public key.
#[derive(Clone, Copy, Debug)]
pub struct Pubkey(pub [u8; 32]);

/// A 64-byte ed25519 signature.
#[derive(Clone, Copy, Debug)]
pub struct Signature(pub [u8; 64]);

/// A 32-byte digest.
#[derive(Clone, Copy, Debug)]
pub struct Digest(pub [u8; 32]);

/// Whether two byte strings are equal, compared byte by byte.
pub fn bytes_equal(a: &[u8], b: &[u8]) -> (r: bool)
    ensures
        r == (a@ == b@),
{
    if a.len() != b.len() {
        return false;
    }
    let mut i: usize = 0;
    while i < a.len()
        invariant
            a@.len() == b@.len(),
            0 <= i <= a@.len(),
            forall|j: int| 0 <= j < i ==> a@[j] == b@[j],
        decreases a@.len() - i,
    {
        if a[i] != b[i] {
            return false;
        }
        i = i + 1;
    }
    assert(a@ =~= b@);
    true
}

/// Lexicographic order on byte strings of equal length: `a` comes first when
/// at the first position where they differ, its byte is the smaller one.
pub open spec fn bytes_lex_less(a: Seq<u8>, b: Seq<u8>) -> bool {
    exists|k: int|
        0 <= k < a.len() && k < b.len() && a[k] < b[k] && forall|j: int|
            0 <= j < k ==> a[j] == b[j]
}

/// Whether `a` comes strictly before `b` in lexicographic order.
pub fn bytes_less(a: &[u8], b: &[u8]) -> (r: bool)
    requires
        a@.len() == b@.len(),
    ensures
        r == bytes_lex_less(a@, b@),
{
    let mut i: usize = 0;
    while i < a.len()
        invariant
            a@.len() == b@.len(),
            0 <= i <= a@.len(),
            forall|j: int| 0 <= j < i ==> a@[j] == b@[j],
        decreases a@.len() - i,
    {
        if a[i] < b[i] {
            assert(0 <= i < a@.len() && a@[i as int] < b@[i as int] && forall|j: int|
                0 <= j < i ==> a@[j] == b@[j]);
            return true;
        }
        if a[i] > b[i] {
            assert forall|k: int|
                !(0 <= k < a@.len() && k < b@.len() && a@[k] < b@[k] && forall|j: int|
                    0 <= j < k ==> a@[j] == b@[j]) by {
                if 0 <= k < a@.len() && k < b@.len() && a@[k] < b@[k] && forall|j: int|
                    0 <= j < k ==> a@[j] == b@[j] {
                    if k > i {
                        assert(a@[i as int] == b@[i as int]);
                    }
                }
            }
            return false;
        }
        i = i + 1;
    }
    false
}

impl Pubkey {
    /// Every public key is well formed on the wire.
    pub fn sanitize(&self) -> (r: Result<(), SanitizeError>)
        ensures
            r == Ok::<(), SanitizeError>(()),
    {
        Ok(())
    }

    /// Byte-wise equality of two keys.
    pub fn equals(&self, other: &Pubkey) -> (r: bool)
        ensures
            r == (self.0@ == other.0@),
    {
        bytes_equal(self.0.as_slice(), other.0.as_slice())
    }
}

impl Signature {
    /// The all-zero signature that unsigned values carry.
    pub fn zeroed() -> (s: Signature)
        ensures
            s.0@ == Seq::new(64, |i: int| 0u8),
    {
        let s = Signature([0u8; 64]);
        assert(s.0@ =~= Seq::new(64, |i: int| 0u8));
        s
    }

    /// Every signature is well formed on the wire.
    pub fn sanitize(&self) -> (r: Result<(), SanitizeError>)
        ensures
            r == Ok::<(), SanitizeError>(()),
    {
        Ok(())
    }

    /// Checks this signature over `message` against the public key given by
    /// `pubkey_bytes`.
    pub fn verify(&self, pubkey_bytes: &[u8], message: &[u8]) -> (r: bool)
        ensures
            r == spec_signature_verify(self.0@, pubkey_bytes@, message@),
    {
        signature_verify(&self.0, pubkey_bytes, message)
    }
}

impl Digest {
    /// Every hash is well formed on the wire.
    pub fn sanitize(&self) -> (r: Result<(), SanitizeError>)
        ensures
            r == Ok::<(), SanitizeError>(()),
    {
        Ok(())
    }
}

/// An ed25519 keypair, held as its 64-byte encoding: the secret key followed
/// by the public key derived from it.
pub struct Keypair {
    bytes: [u8; 64],
}

impl Keypair {
    /// The keypair's encoding never fails to be accepted.
    #[verifier::type_invariant]
    spec fn accepted(self) -> bool {
        spec_keypair_bytes_accepted(self.bytes@)
    }

    /// The 64-byte encoding of this keypair.
    pub closed spec fn view_bytes(self) -> Seq<u8> {
        self.bytes@
    }

    /// The public half of the keypair.
    pub open spec fn spec_pubkey(self) -> Seq<u8> {
        self.view_bytes().subrange(32, 64)
    }

    /// A fresh keypair drawn from the operating system's randomness; its
    /// encoding is one that `from_bytes` accepts. Which keypair comes out is
    /// left open.
    pub fn new() -> (k: Keypair)
        ensures
            k.view_bytes().len() == 64,
            spec_keypair_bytes_accepted(k.view_bytes()),
    {
        let bytes = generate_keypair_bytes();
        Keypair { bytes }
    }

    /// Recovers a keypair from its 64-byte encoding; `None` when the bytes are
    /// not a secret key followed by the public key derived from it.
    pub fn from_bytes(bytes: &[u8]) -> (r: Option<Keypair>)
        ensures
            r is Some <==> spec_keypair_bytes_accepted(bytes@),
            r matches Some(k) ==> k.view_bytes() == bytes@,
    {
        if !keypair_bytes_accepted(bytes) {
            return None;
        }
        let mut arr = [0u8; 64];
        let mut i: usize = 0;
        while i < 64
            invariant
                bytes@.len() == 64,
                0 <= i <= 64,
                forall|j: int| 0 <= j < i ==> arr@[j] == bytes@[j],
            decreases 64 - i,
        {
            arr[i] = bytes[i];
            i = i + 1;
        }
        assert(arr@ =~= bytes@);
        Some(Keypair { bytes: arr })
    }

    /// The 64-byte encoding of this keypair.
    pub fn to_bytes(&self) -> (r: [u8; 64])
        ensures
            r@ == self.view_bytes(),
    {
        self.bytes
    }

    /// The public key of this keypair: the last 32 bytes of its encoding.
    pub fn pubkey(&self) -> (p: Pubkey)
        ensures
            p.0@ == self.spec_pubkey(),
    {
        proof {
            use_type_invariant(self);
        }
        let mut out = [0u8; 32];
        let mut i: usize = 0;
        while i < 32
            invariant
                self.bytes@.len() == 64,
                0 <= i <= 32,
                forall|j: int| 0 <= j < i ==> out@[j] == self.bytes@[32 + j],
            decreases 32 - i,
        {
            out[i] = self.bytes[32 + i];
            i = i + 1;
        }
        assert(out@ =~= self.bytes@.subrange(32, 64));
        Pubkey(out)
    }

    /// Signs `message` with this keypair; the signature verifies against the
    /// keypair's public key.
    pub fn sign_message(&self, message: &[u8]) -> (s: Signature)
        ensures
            s.0@ == spec_ed25519_sign(self.view_bytes(), message@),
            spec_signature_verify(s.0@, self.spec_pubkey(), message@),
    {
        proof {
            use_type_invariant(self);
        }
        Signature(sign_with_keypair_bytes(&self.bytes, message))
    }
}

/// The SHA-256 digest of the concatenation of `parts`, as computed by
/// `solana_sdk::hash::hashv`.
pub uninterp spec fn spec_sha256_hashv(parts: Seq<Seq<u8>>) -> Seq<u8>;

/// The BLAKE3 digest of `data`, as computed by `solana_sdk::blake3::hash`.
pub uninterp spec fn spec_blake3_hash(data: Seq<u8>) -> Seq<u8>;

/// Whether `solana_sdk::signature::Signature::verify` accepts the signature
/// `sig` over `message` for the public key bytes `pubkey`.
pub uninterp spec fn spec_signature_verify(sig: Seq<u8>, pubkey: Seq<u8>, message: Seq<u8>) -> bool;

/// Whether `solana_sdk::signature::Keypair::from_bytes` accepts `bytes`.
pub uninterp spec fn spec_keypair_bytes_accepted(bytes: Seq<u8>) -> bool;

/// The signature that `solana_sdk::signature::Keypair::sign_message` makes
/// over `message` with the keypair encoded by `keypair` (ed25519 signing is
/// deterministic).
pub uninterp spec fn spec_ed25519_sign(keypair: Seq<u8>, message: Seq<u8>) -> Seq<u8>;

/// Calls `solana_sdk::hash::hashv` on the parts, in order. Claims that the
/// 32-byte result is `spec_sha256_hashv` of the parts.
#[verifier::external_body]
pub(crate) fn sha256_hashv(parts: &Vec<Vec<u8>>) -> (h: Digest)
    ensures
        h.0@ == spec_sha256_hashv(parts@.map_values(|p: Vec<u8>| p@)),
{
    let refs: Vec<&[u8]> = parts.iter().map(|p| p.as_slice()).collect();
    Digest(solana_sdk::hash::hashv(&refs).to_bytes())
}

/// Calls `solana_sdk::blake3::hash`. Claims that the 32-byte result is
/// `spec_blake3_hash` of the data.
#[verifier::external_body]
pub(crate) fn blake3_hash(data: &[u8]) -> (h: Digest)
    ensures
        h.0@ == spec_blake3_hash(data@),
{
    Digest(solana_sdk::blake3::hash(data).to_bytes())
}

/// Calls `solana_sdk::signature::Signature::verify`. Claims that the result is
/// `spec_signature_verify` of the signature, key and message bytes.
#[verifier::external_body]
fn signature_verify(sig: &[u8; 64], pubkey_bytes: &[u8], message: &[u8]) -> (r: bool)
    ensures
        r == spec_signature_verify(sig@, pubkey_bytes@, message@),
{
    solana_sdk::signature::Signature::from(*sig).verify(pubkey_bytes, message)
}

/// Calls `solana_sdk::signature::Keypair::from_bytes` and reports whether it
/// succeeded. Claims that the result is `spec_keypair_bytes_accepted` of the
/// bytes, and that only a 64-byte input is accepted (the public half must be
/// exactly 32 bytes).
#[verifier::external_body]
fn keypair_bytes_accepted(bytes: &[u8]) -> (r: bool)
    ensures
        r == spec_keypair_bytes_accepted(bytes@),
        r ==> bytes@.len() == 64,
{
    solana_sdk::signature::Keypair::from_bytes(bytes).is_ok()
}

/// Calls `solana_sdk::signature::Keypair::new` and returns its 64-byte
/// encoding. The keypair is random, so nothing is claimed of its value; the
/// claim is that `Keypair::from_bytes` accepts what `to_bytes` produced (the
/// public half is derived from the secret half).
#[verifier::external_body]
fn generate_keypair_bytes() -> (bytes: [u8; 64])
    ensures
        spec_keypair_bytes_accepted(bytes@),
{
    solana_sdk::signature::Keypair::new().to_bytes()
}

/// Calls `solana_sdk::signature::Keypair::from_bytes` and then
/// `Signer::sign_message`. Claims that the result is `spec_ed25519_sign` of
/// the keypair bytes and the message, and that `Signature::verify` accepts
/// it for the keypair's public half and the same message: `from_bytes` only
/// accepts a public half derived from the secret half, and an ed25519
/// signature made with such a keypair passes `verify_strict`.
#[verifier::external_body]
fn sign_with_keypair_bytes(keypair: &[u8; 64], message: &[u8]) -> (sig: [u8; 64])
    requires
        spec_keypair_bytes_accepted(keypair@),
    ensures
        sig@ == spec_ed25519_sign(keypair@, message@),
        spec_signature_verify(sig@, keypair@.subrange(32, 64), message@),
{
    let kp = solana_sdk::signature::Keypair::from_bytes(keypair).unwrap();
    kp.sign_message(message).into()
}

/// The public key that `solana_sdk::pubkey::Pubkey::from_str` decodes from
/// `text` (base58), or `None` where it refuses the text.
pub uninterp spec fn spec_pubkey_from_str(text: Seq<char>) -> Option<Seq<u8>>;

/// The text that `solana_sdk::pubkey::Pubkey` displays itself as (base58).
pub uninterp spec fn spec_pubkey_to_string(key: Seq<u8>) -> Seq<char>;

/// The signature that `solana_sdk::signature::Signature::from_str` decodes
/// from `text` (base58), or `None` where it refuses the text.
pub uninterp spec fn spec_signature_from_str(text: Seq<char>) -> Option<Seq<u8>>;

/// Calls `Pubkey::from_str`. Claims that a key comes back exactly when
/// `spec_pubkey_from_str` of the text names one, and that it is that key.
#[verifier::external_body]
pub(crate) fn pubkey_from_str(text: &str) -> (r: Option<Pubkey>)
    ensures
        match r {
            Some(p) => spec_pubkey_from_str(text@) == Some(p.0@),
            None => spec_pubkey_from_str(text@) is None,
        },
{
    match <solana_sdk::pubkey::Pubkey as std::str::FromStr>::from_str(text) {
        Ok(p) => Some(Pubkey(p.to_bytes())),
        Err(_) => None,
    }
}

/// Calls `Pubkey::to_string`. Claims that the text is
/// `spec_pubkey_to_string` of the key, and that `Pubkey::from_str` decodes it
/// back to the same key (base58 of 32 bytes is at most 44 characters, the
/// longest text `from_str` accepts, and decoding undoes encoding).
#[verifier::external_body]
pub(crate) fn pubkey_to_string(key: &Pubkey) -> (r: String)
    ensures
        r@ == spec_pubkey_to_string(key.0@),
        spec_pubkey_from_str(r@) == Some(key.0@),
{
    solana_sdk::pubkey::Pubkey::new_from_array(key.0).to_string()
}

/// Calls `Signature::from_str`. Claims that a signature comes back exactly
/// when `spec_signature_from_str` of the text names one, and that it is that
/// signature.
#[verifier::external_body]
pub(crate) fn signature_from_str(text: &str) -> (r: Option<Signature>)
    ensures
        match r {
            Some(s) => spec_signature_from_str(text@) == Some(s.0@),
            None => spec_signature_from_str(text@) is None,
        },
{
    match <solana_sdk::signature::Signature as std::str::FromStr>::from_str(text) {
        Ok(s) => Some(Signature(s.into())),
        Err(_) => None,
    }
}

/// Calls `solana_sdk::timing::timestamp`: the milliseconds since the Unix
/// epoch on this machine's clock. Nothing is claimed of the value.
#[verifier::external_body]
pub(crate) fn timestamp_ms() -> (t: u64) {
    solana_sdk::timing::timestamp()
}

} // verus!
