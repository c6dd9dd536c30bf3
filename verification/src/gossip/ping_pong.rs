//! Ping and pong messages: a node proves it controls its key by answering a
//! random token with a signed digest of it.

use crate::primitives::{
    sha256_hashv, spec_ed25519_sign, spec_sha256_hashv, spec_signature_verify, Digest, Keypair,
    Pubkey, SanitizeError, Signature,
};
use crate::random::fill_bytes32;
use crate::wire::{push_bytes, Wire};
use crate::wire_read::{wire_at, WireRead};
use rand::rngs::StdRng;
use vstd::prelude::*;

verus! {

/// The prefix hashed in front of a ping's token: the ASCII bytes of
/// `SOLANA_PING_PONG`.
pub open spec fn spec_ping_pong_hash_prefix() -> Seq<u8> {
    seq![83u8, 79u8, 76u8, 65u8, 78u8, 65u8, 95u8, 80u8, 73u8, 78u8, 71u8, 95u8, 80u8, 79u8, 78u8, 71u8]
}

/// The prefix hashed in front of a ping's token.
pub fn ping_pong_hash_prefix() -> (p: Vec<u8>)
    ensures
        p@ == spec_ping_pong_hash_prefix(),
{
    let p = vec![83u8, 79u8, 76u8, 65u8, 78u8, 65u8, 95u8, 80u8, 73u8, 78u8, 71u8, 95u8, 80u8, 79u8, 78u8, 71u8];
    assert(p@ =~= spec_ping_pong_hash_prefix());
    p
}

impl Wire for [u8; 32] {
    /// The bytes themselves.
    open spec fn spec_wire(&self) -> Seq<u8> {
        self@
    }

    fn write_wire(&self, out: &mut Vec<u8>) {
        push_bytes(out, self.as_slice());
    }
}

/// A ping: a token signed by its sender.
#[derive(Clone, Copy, Debug)]
pub struct Ping<T> {
    pub from: Pubkey,
    pub token: T,
    pub signature: Signature,
}

/// A pong: the digest of a ping's token, signed by the node answering.
#[derive(Clone, Copy, Debug)]
pub struct Pong {
    pub from: Pubkey,
    pub hash: Digest,
    pub signature: Signature,
}

impl<T: Wire> Ping<T> {
    /// Whether the signature is valid for the token's encoding under the
    /// sender's key.
    pub open spec fn spec_verify(self) -> bool {
        spec_signature_verify(self.signature.0@, self.from.0@, self.token.spec_wire())
    }

    /// A ping of `token` from `keypair`, signed over the token's encoding.
    pub fn new(token: T, keypair: &Keypair) -> (p: Ping<T>)
        ensures
            p.from.0@ == keypair.spec_pubkey(),
            p.token == token,
            p.signature.0@ == spec_ed25519_sign(keypair.view_bytes(), token.spec_wire()),
            p.spec_verify(),
    {
        let mut bytes: Vec<u8> = Vec::new();
        token.write_wire(&mut bytes);
        assert(bytes@ =~= token.spec_wire());
        let signature = keypair.sign_message(bytes.as_slice());
        Ping { from: keypair.pubkey(), token, signature }
    }

    /// Sender key and signature are always well formed.
    pub fn sanitize(&self) -> (r: Result<(), SanitizeError>)
        ensures
            r == Ok::<(), SanitizeError>(()),
    {
        let s = self.from.sanitize();
        if s.is_err() {
            return s;
        }
        self.signature.sanitize()
    }

    /// The sender's key.
    pub fn pubkey(&self) -> (p: Pubkey)
        ensures
            p == self.from,
    {
        self.from
    }

    /// The bytes the signature covers: the token's encoding.
    pub fn signable_data(&self) -> (bytes: Vec<u8>)
        ensures
            bytes@ == self.token.spec_wire(),
    {
        let mut out: Vec<u8> = Vec::new();
        self.token.write_wire(&mut out);
        assert(out@ =~= self.token.spec_wire());
        out
    }

    /// The signature.
    pub fn get_signature(&self) -> (s: Signature)
        ensures
            s == self.signature,
    {
        self.signature
    }

    /// Replaces the signature; nothing else changes.
    pub fn set_signature(&mut self, signature: Signature)
        ensures
            final(self).signature == signature,
            final(self).from == old(self).from,
            final(self).token == old(self).token,
    {
        self.signature = signature;
    }

    /// Checks the signature over the token's encoding against the sender.
    pub fn verify(&self) -> (r: bool)
        ensures
            r == self.spec_verify(),
    {
        let bytes = self.signable_data();
        self.signature.verify(self.from.0.as_slice(), bytes.as_slice())
    }
}

impl Ping<[u8; 32]> {
    /// A ping of a random 32-byte token from `keypair`.
    pub fn new_rand(rng: &mut StdRng, keypair: &Keypair) -> (p: Ping<[u8; 32]>)
        ensures
            p.from.0@ == keypair.spec_pubkey(),
            p.signature.0@ == spec_ed25519_sign(keypair.view_bytes(), p.token@),
            p.spec_verify(),
    {
        let token = fill_bytes32(rng);
        Ping::new(token, keypair)
    }
}

impl<T: Wire> Wire for Ping<T> {
    /// The sender's key, then the token, then the signature.
    open spec fn spec_wire(&self) -> Seq<u8> {
        self.from.spec_wire() + self.token.spec_wire() + self.signature.spec_wire()
    }

    fn write_wire(&self, out: &mut Vec<u8>) {
        let ghost start = out@;
        self.from.write_wire(out);
        self.token.write_wire(out);
        self.signature.write_wire(out);
        assert(out@ =~= start + self.spec_wire());
    }
}

/// The digest a pong carries for a token encoded as `token_bytes`: SHA-256
/// of the prefix followed by the token's encoding.
pub open spec fn spec_pong_hash(token_bytes: Seq<u8>) -> Seq<u8> {
    spec_sha256_hashv(seq![spec_ping_pong_hash_prefix(), token_bytes])
}

impl Pong {
    /// Whether the signature is valid for the digest under the answering
    /// node's key.
    pub open spec fn spec_verify(self) -> bool {
        spec_signature_verify(self.signature.0@, self.from.0@, self.hash.0@)
    }

    /// The answer of `keypair` to `ping`: the digest of the ping's token,
    /// signed.
    pub fn new<T: Wire>(ping: &Ping<T>, keypair: &Keypair) -> (p: Pong)
        ensures
            p.from.0@ == keypair.spec_pubkey(),
            p.hash.0@ == spec_pong_hash(ping.token.spec_wire()),
            p.signature.0@ == spec_ed25519_sign(
                keypair.view_bytes(),
                spec_pong_hash(ping.token.spec_wire()),
            ),
            p.spec_verify(),
    {
        let token = ping.signable_data();
        let mut parts: Vec<Vec<u8>> = Vec::new();
        parts.push(ping_pong_hash_prefix());
        parts.push(token);
        assert(parts@.map_values(|p: Vec<u8>| p@) =~= seq![
            spec_ping_pong_hash_prefix(),
            ping.token.spec_wire(),
        ]);
        let hash = sha256_hashv(&parts);
        let signature = keypair.sign_message(hash.0.as_slice());
        Pong { from: keypair.pubkey(), hash, signature }
    }

    /// The answering node's key.
    pub fn from(&self) -> (p: &Pubkey)
        ensures
            *p == self.from,
    {
        &self.from
    }

    /// Key, digest and signature are always well formed.
    pub fn sanitize(&self) -> (r: Result<(), SanitizeError>)
        ensures
            r == Ok::<(), SanitizeError>(()),
    {
        let s = self.from.sanitize();
        if s.is_err() {
            return s;
        }
        let h = self.hash.sanitize();
        if h.is_err() {
            return h;
        }
        self.signature.sanitize()
    }

    /// The answering node's key.
    pub fn pubkey(&self) -> (p: Pubkey)
        ensures
            p == self.from,
    {
        self.from
    }

    /// The bytes the signature covers: the digest.
    pub fn signable_data(&self) -> (bytes: Vec<u8>)
        ensures
            bytes@ == self.hash.0@,
    {
        let mut out: Vec<u8> = Vec::new();
        push_bytes(&mut out, self.hash.0.as_slice());
        assert(out@ =~= self.hash.0@);
        out
    }

    /// The signature.
    pub fn get_signature(&self) -> (s: Signature)
        ensures
            s == self.signature,
    {
        self.signature
    }

    /// Replaces the signature; nothing else changes.
    pub fn set_signature(&mut self, signature: Signature)
        ensures
            final(self).signature == signature,
            final(self).from == old(self).from,
            final(self).hash == old(self).hash,
    {
        self.signature = signature;
    }

    /// Checks the signature over the digest against the answering node.
    pub fn verify(&self) -> (r: bool)
        ensures
            r == self.spec_verify(),
    {
        self.signature.verify(self.from.0.as_slice(), self.hash.0.as_slice())
    }
}

impl Wire for Pong {
    /// The answering node's key, then the digest, then the signature.
    open spec fn spec_wire(&self) -> Seq<u8> {
        self.from.spec_wire() + self.hash.spec_wire() + self.signature.spec_wire()
    }

    fn write_wire(&self, out: &mut Vec<u8>) {
        let ghost start = out@;
        self.from.write_wire(out);
        self.hash.write_wire(out);
        self.signature.write_wire(out);
        assert(out@ =~= start + self.spec_wire());
    }
}

/// Law: a ping is determined by its encoding, so reading back a written
/// ping gives that very ping.
pub proof fn lemma_ping_encoding_determines(a: Ping<[u8; 32]>, b: Ping<[u8; 32]>)
    requires
        a.spec_wire() == b.spec_wire(),
    ensures
        a == b,
{
    broadcast use vstd::array::group_array_axioms;

    let wa = a.spec_wire();
    let wb = b.spec_wire();
    assert(wa.subrange(0, 32) =~= a.from.0@);
    assert(wb.subrange(0, 32) =~= b.from.0@);
    assert(wa.subrange(32, 64) =~= a.token@);
    assert(wb.subrange(32, 64) =~= b.token@);
    assert(wa.subrange(64, 128) =~= a.signature.0@);
    assert(wb.subrange(64, 128) =~= b.signature.0@);
    assert(a.from.0 =~= b.from.0);
    assert(a.token =~= b.token);
    assert(a.signature.0 =~= b.signature.0);
}

/// Law: a pong is determined by its encoding, so reading back a written
/// pong gives that very pong.
pub proof fn lemma_pong_encoding_determines(a: Pong, b: Pong)
    requires
        a.spec_wire() == b.spec_wire(),
    ensures
        a == b,
{
    broadcast use vstd::array::group_array_axioms;

    let wa = a.spec_wire();
    let wb = b.spec_wire();
    assert(wa.subrange(0, 32) =~= a.from.0@);
    assert(wb.subrange(0, 32) =~= b.from.0@);
    assert(wa.subrange(32, 64) =~= a.hash.0@);
    assert(wb.subrange(32, 64) =~= b.hash.0@);
    assert(wa.subrange(64, 128) =~= a.signature.0@);
    assert(wb.subrange(64, 128) =~= b.signature.0@);
    assert(a.from.0 =~= b.from.0);
    assert(a.hash.0 =~= b.hash.0);
    assert(a.signature.0 =~= b.signature.0);
}

impl<T: WireRead> WireRead for Ping<T> {
    fn read_wire(bytes: &[u8], pos: usize) -> (r: Option<(Self, usize)>) {
        match <((Pubkey, T), Signature)>::read_wire(bytes, pos) {
            Some((((from, token), signature), end)) => {
                let v = Ping { from, token, signature };
                proof {
                    assert forall|w: Ping<T>| #[trigger]
                        wire_at(bytes@, pos as int, w.spec_wire()) implies w.spec_wire() == v.spec_wire() by {
                        assert(((w.from, w.token), w.signature).spec_wire() == w.spec_wire());
                    }
                }
                Some((v, end))
            },
            None => {
                assert forall|w: Ping<T>| !#[trigger] wire_at(bytes@, pos as int, w.spec_wire()) by {
                    assert(((w.from, w.token), w.signature).spec_wire() == w.spec_wire());
                }
                None
            },
        }
    }

    proof fn lemma_encoding_nonempty(v: Self) {
    }
}

impl WireRead for Pong {
    fn read_wire(bytes: &[u8], pos: usize) -> (r: Option<(Self, usize)>) {
        match <((Pubkey, Digest), Signature)>::read_wire(bytes, pos) {
            Some((((from, hash), signature), end)) => {
                let v = Pong { from, hash, signature };
                proof {
                    assert forall|w: Pong| #[trigger]
                        wire_at(bytes@, pos as int, w.spec_wire()) implies w.spec_wire() == v.spec_wire() by {
                        assert(((w.from, w.hash), w.signature).spec_wire() == w.spec_wire());
                    }
                }
                Some((v, end))
            },
            None => {
                assert forall|w: Pong| !#[trigger] wire_at(bytes@, pos as int, w.spec_wire()) by {
                    assert(((w.from, w.hash), w.signature).spec_wire() == w.spec_wire());
                }
                None
            },
        }
    }

    proof fn lemma_encoding_nonempty(v: Self) {
    }
}

} // verus!
