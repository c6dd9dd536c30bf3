//! The gossip protocol messages, their checks, their encoding and how a
//! received packet is read back into a message.

use crate::gossip::crds::{
    sanitize_wallclock, spec_sanitize_wallclock, CrdsValue, CrdsValueLabel,
};
use crate::gossip::ping_pong::{self, Pong};
use crate::primitives::{spec_ed25519_sign, spec_signature_verify, Keypair, Pubkey, SanitizeError, Signature};
use crate::wire::{enc_u32, enc_u64, push_u32, push_u64, wire_seq, write_seq, Wire};
use crate::wire_read::{lemma_tagged_at, read_u32, wire_at, WireRead};
use rayon::iter::{IntoParallelIterator, ParallelIterator};
use vstd::prelude::*;

verus! {

/// The ping exchanged over gossip: its token is 32 random bytes.
pub type Ping = ping_pong::Ping<[u8; 32]>;

/// Asks a peer for the value it holds under a label.
#[derive(Clone, Copy, Debug)]
pub struct CrdsFilter {
    pub filter: CrdsValueLabel,
}

impl Wire for CrdsFilter {
    open spec fn spec_wire(&self) -> Seq<u8> {
        self.filter.spec_wire()
    }

    fn write_wire(&self, out: &mut Vec<u8>) {
        self.filter.write_wire(out);
    }
}

/// A request by `pubkey` to `destination` to stop forwarding the values of
/// the nodes in `prunes`.
#[derive(Clone, Debug)]
pub struct PruneData {
    /// Pubkey of the node that sent this prune data
    pub pubkey: Pubkey,
    /// Pubkeys of nodes that should be pruned
    pub prunes: Vec<Pubkey>,
    /// Signature of this Prune Message
    pub signature: Signature,
    /// The Pubkey of the intended node/destination for this message
    pub destination: Pubkey,
    /// Wallclock of the node that generated this message
    pub wallclock: u64,
}

impl PruneData {
    /// The bytes the signature covers: the sender, the pruned nodes, the
    /// destination and the wallclock.
    pub open spec fn spec_signable(self) -> Seq<u8> {
        self.pubkey.spec_wire() + wire_seq(self.prunes@) + self.destination.spec_wire() + enc_u64(
            self.wallclock,
        )
    }

    /// Whether the signature is valid for the signable bytes under the
    /// sender's key.
    pub open spec fn spec_verify(self) -> bool {
        spec_signature_verify(self.signature.0@, self.pubkey.0@, self.spec_signable())
    }

    /// A prune message is rejected when its wallclock is not below
    /// `MAX_WALLCLOCK`.
    pub fn sanitize(&self) -> (r: Result<(), SanitizeError>)
        ensures
            r == spec_sanitize_wallclock(self.wallclock),
    {
        sanitize_wallclock(self.wallclock)
    }

    /// The sender's key.
    pub fn pubkey(&self) -> (p: Pubkey)
        ensures
            p == self.pubkey,
    {
        self.pubkey
    }

    /// The bytes the signature covers.
    pub fn signable_data(&self) -> (bytes: Vec<u8>)
        ensures
            bytes@ == self.spec_signable(),
    {
        let mut out: Vec<u8> = Vec::new();
        self.pubkey.write_wire(&mut out);
        write_seq(&self.prunes, &mut out);
        self.destination.write_wire(&mut out);
        push_u64(&mut out, self.wallclock);
        assert(out@ =~= self.spec_signable());
        out
    }

    /// The signature.
    pub fn get_signature(&self) -> (s: Signature)
        ensures
            s == self.signature,
    {
        self.signature
    }

    /// Replaces the signature; nothing else changes.
    pub fn set_signature(&mut self, signature: Signature)
        ensures
            final(self).signature == signature,
            final(self).pubkey == old(self).pubkey,
            final(self).prunes == old(self).prunes,
            final(self).destination == old(self).destination,
            final(self).wallclock == old(self).wallclock,
    {
        self.signature = signature;
    }

    /// Checks the signature over the signable bytes against the sender.
    pub fn verify(&self) -> (r: bool)
        ensures
            r == self.spec_verify(),
    {
        let bytes = self.signable_data();
        self.signature.verify(self.pubkey.0.as_slice(), bytes.as_slice())
    }

    /// Signs the signable bytes with `keypair`, replacing the signature. When
    /// the keypair is the sender's, the message verifies.
    pub fn sign(&mut self, keypair: &Keypair)
        ensures
            final(self).pubkey == old(self).pubkey,
            final(self).prunes == old(self).prunes,
            final(self).destination == old(self).destination,
            final(self).wallclock == old(self).wallclock,
            final(self).signature.0@ == spec_ed25519_sign(keypair.view_bytes(), old(self).spec_signable()),
            old(self).pubkey.0@ == keypair.spec_pubkey() ==> final(self).spec_verify(),
    {
        let bytes = self.signable_data();
        let signature = keypair.sign_message(bytes.as_slice());
        self.set_signature(signature);
    }
}

impl Wire for PruneData {
    /// The fields in declaration order.
    open spec fn spec_wire(&self) -> Seq<u8> {
        self.pubkey.spec_wire() + wire_seq(self.prunes@) + self.signature.spec_wire()
            + self.destination.spec_wire() + enc_u64(self.wallclock)
    }

    fn write_wire(&self, out: &mut Vec<u8>) {
        let ghost start = out@;
        self.pubkey.write_wire(out);
        write_seq(&self.prunes, out);
        self.signature.write_wire(out);
        self.destination.write_wire(out);
        push_u64(out, self.wallclock);
        assert(out@ =~= start + self.spec_wire());
    }
}

/// Gossip protocol messages.
#[derive(Clone, Debug)]
pub enum Protocol {
    PullRequest(CrdsFilter, CrdsValue),
    PullResponse(Pubkey, Vec<CrdsValue>),
    PushMessage(Pubkey, Vec<CrdsValue>),
    PruneMessage(Pubkey, PruneData),
    PingMessage(Ping),
    PongMessage(Pong),
}

/// The outcome of checking every value of `values` from position `i` on:
/// the first value that fails decides, otherwise all pass.
pub open spec fn sanitize_values_from(values: Seq<CrdsValue>, i: int) -> Result<(), SanitizeError>
    decreases values.len() - i,
{
    if i < 0 || i >= values.len() {
        Ok(())
    } else if values[i].data.spec_sanitize() is Err {
        values[i].data.spec_sanitize()
    } else {
        sanitize_values_from(values, i + 1)
    }
}

/// Checks the values in order and reports the first failure.
pub fn sanitize_values(values: &Vec<CrdsValue>) -> (r: Result<(), SanitizeError>)
    ensures
        r == sanitize_values_from(values@, 0),
{
    let mut i: usize = 0;
    while i < values.len()
        invariant
            0 <= i <= values@.len(),
            sanitize_values_from(values@, 0) == sanitize_values_from(values@, i as int),
        decreases values@.len() - i,
    {
        let r = values[i].sanitize();
        if r.is_err() {
            return r;
        }
        i = i + 1;
    }
    Ok(())
}

/// The values of `values` whose signatures verify, in their order.
pub open spec fn verified_values(values: Seq<CrdsValue>) -> Seq<CrdsValue> {
    values.filter(|v: CrdsValue| v.spec_verify())
}

/// Calls `rayon`'s `into_par_iter().filter(..).collect()` with a filter that
/// only calls the verified `CrdsValue::verify`. Claims that the result is the
/// values that pass, in the order they came in (rayon's collection into a
/// `Vec` keeps the order of the items).
#[verifier::external_body]
fn par_filter_verified(values: Vec<CrdsValue>) -> (r: Vec<CrdsValue>)
    ensures
        r@ == verified_values(values@),
{
    values.into_par_iter().filter(|v| v.verify()).collect()
}

impl Protocol {
    /// The checks that come before any signature is verified: values must
    /// pass theirs, and a prune message must come from the node it names.
    pub open spec fn spec_sanitize(self) -> Result<(), SanitizeError> {
        match self {
            Protocol::PullRequest(_, val) => val.data.spec_sanitize(),
            Protocol::PullResponse(_, vals) => sanitize_values_from(vals@, 0),
            Protocol::PushMessage(_, vals) => sanitize_values_from(vals@, 0),
            Protocol::PruneMessage(from, val) => if from.0@ != val.pubkey.0@ {
                Err(SanitizeError::InvalidValue)
            } else {
                spec_sanitize_wallclock(val.wallclock)
            },
            Protocol::PingMessage(_) => Ok(()),
            Protocol::PongMessage(_) => Ok(()),
        }
    }

    /// Runs the checks that come before signatures; see `spec_sanitize`.
    pub fn sanitize(&self) -> (r: Result<(), SanitizeError>)
        ensures
            r == self.spec_sanitize(),
    {
        match self {
            Protocol::PullRequest(_filter, val) => val.sanitize(),
            Protocol::PullResponse(_, val) => sanitize_values(val),
            Protocol::PushMessage(_, val) => sanitize_values(val),
            Protocol::PruneMessage(from, val) => {
                if !from.equals(&val.pubkey) {
                    Err(SanitizeError::InvalidValue)
                } else {
                    val.sanitize()
                }
            },
            Protocol::PingMessage(ping) => ping.sanitize(),
            Protocol::PongMessage(pong) => pong.sanitize(),
        }
    }

    /// Whether `r` is the message with its signatures checked: a pull
    /// request, prune, ping or pong survives whole when its signature
    /// verifies; a pull response or push message keeps, in order, only the
    /// values whose signatures verify, and is dropped when none does.
    pub open spec fn spec_par_verify(self, r: Option<Protocol>) -> bool {
        match self {
            Protocol::PullRequest(_, caller) => r == if caller.spec_verify() {
                Some(self)
            } else {
                None
            },
            Protocol::PullResponse(from, data) => if verified_values(data@).len() == 0 {
                r is None
            } else {
                r matches Some(Protocol::PullResponse(f, d)) && f == from && d@ == verified_values(data@)
            },
            Protocol::PushMessage(from, data) => if verified_values(data@).len() == 0 {
                r is None
            } else {
                r matches Some(Protocol::PushMessage(f, d)) && f == from && d@ == verified_values(data@)
            },
            Protocol::PruneMessage(_, data) => r == if data.spec_verify() {
                Some(self)
            } else {
                None
            },
            Protocol::PingMessage(ping) => r == if ping.spec_verify() {
                Some(self)
            } else {
                None
            },
            Protocol::PongMessage(pong) => r == if pong.spec_verify() {
                Some(self)
            } else {
                None
            },
        }
    }

    /// Checks the message's signatures; see `spec_par_verify`.
    pub fn par_verify(self) -> (r: Option<Protocol>)
        ensures
            self.spec_par_verify(r),
    {
        match self {
            Protocol::PullRequest(_, ref caller) => {
                if caller.verify() {
                    Some(self)
                } else {
                    None
                }
            },
            Protocol::PullResponse(from, data) => {
                let data = par_filter_verified(data);
                if data.len() == 0 {
                    None
                } else {
                    Some(Protocol::PullResponse(from, data))
                }
            },
            Protocol::PushMessage(from, data) => {
                let data = par_filter_verified(data);
                if data.len() == 0 {
                    None
                } else {
                    Some(Protocol::PushMessage(from, data))
                }
            },
            Protocol::PruneMessage(_, ref data) => {
                if data.verify() {
                    Some(self)
                } else {
                    None
                }
            },
            Protocol::PingMessage(ref ping) => {
                if ping.verify() {
                    Some(self)
                } else {
                    None
                }
            },
            Protocol::PongMessage(ref pong) => {
                if pong.verify() {
                    Some(self)
                } else {
                    None
                }
            },
        }
    }

    /// The message's encoding.
    pub fn serialize(self) -> (bytes: Vec<u8>)
        ensures
            bytes@ == self.spec_wire(),
    {
        let mut out: Vec<u8> = Vec::new();
        self.write_wire(&mut out);
        assert(out@ =~= self.spec_wire());
        out
    }
}

impl Protocol {
    /// Reads a whole message from a received packet. A message comes back
    /// exactly when the packet is the encoding of some message, with nothing
    /// left over, and the message that comes back has that encoding: reading
    /// a written message always succeeds and loses nothing the encoding
    /// carries. (A shred record's slots are read in whatever order they
    /// come.)
    pub fn deserialize(bytes: &[u8]) -> (r: Option<Protocol>)
        ensures
            match r {
                Some(p) => p.spec_wire() == bytes@,
                None => forall|w: Protocol| #[trigger] w.spec_wire() != bytes@,
            },
    {
        let n = bytes.len();
        match Protocol::read_wire(bytes, 0) {
            Some((p, end)) => {
                proof {
                    assert(bytes@.subrange(0, end as int) == p.spec_wire());
                }
                if end == n {
                    assert(bytes@.subrange(0, n as int) =~= bytes@);
                    Some(p)
                } else {
                    assert forall|w: Protocol| #[trigger] w.spec_wire() != bytes@ by {
                        if w.spec_wire() == bytes@ {
                            assert(bytes@.subrange(0, n as int) =~= bytes@);
                            assert(wire_at(bytes@, 0, w.spec_wire()));
                        }
                    }
                    None
                }
            },
            None => {
                assert forall|w: Protocol| #[trigger] w.spec_wire() != bytes@ by {
                    if w.spec_wire() == bytes@ {
                        assert(bytes@.subrange(0, n as int) =~= bytes@);
                        assert(wire_at(bytes@, 0, w.spec_wire()));
                    }
                }
                None
            },
        }
    }
}

/// A received message is kept when it passes its checks and its signatures
/// verify; see `Protocol::spec_sanitize` and `Protocol::spec_par_verify`.
pub fn sanitize_and_verify(protocol: Protocol) -> (r: Option<Protocol>)
    ensures
        if protocol.spec_sanitize() is Err {
            r is None
        } else {
            protocol.spec_par_verify(r)
        },
{
    if protocol.sanitize().is_err() {
        return None;
    }
    protocol.par_verify()
}

impl Wire for Protocol {
    /// The variant's index as a `u32`, then the payload's fields in order.
    open spec fn spec_wire(&self) -> Seq<u8> {
        match *self {
            Protocol::PullRequest(f, v) => enc_u32(0) + f.spec_wire() + v.spec_wire(),
            Protocol::PullResponse(p, vs) => enc_u32(1) + p.spec_wire() + wire_seq(vs@),
            Protocol::PushMessage(p, vs) => enc_u32(2) + p.spec_wire() + wire_seq(vs@),
            Protocol::PruneMessage(p, d) => enc_u32(3) + p.spec_wire() + d.spec_wire(),
            Protocol::PingMessage(ping) => enc_u32(4) + ping.spec_wire(),
            Protocol::PongMessage(pong) => enc_u32(5) + pong.spec_wire(),
        }
    }

    fn write_wire(&self, out: &mut Vec<u8>) {
        let ghost start = out@;
        match self {
            Protocol::PullRequest(f, v) => {
                push_u32(out, 0);
                f.write_wire(out);
                v.write_wire(out);
            },
            Protocol::PullResponse(p, vs) => {
                push_u32(out, 1);
                p.write_wire(out);
                write_seq(vs, out);
            },
            Protocol::PushMessage(p, vs) => {
                push_u32(out, 2);
                p.write_wire(out);
                write_seq(vs, out);
            },
            Protocol::PruneMessage(p, d) => {
                push_u32(out, 3);
                p.write_wire(out);
                d.write_wire(out);
            },
            Protocol::PingMessage(ping) => {
                push_u32(out, 4);
                ping.write_wire(out);
            },
            Protocol::PongMessage(pong) => {
                push_u32(out, 5);
                pong.write_wire(out);
            },
        }
        assert(out@ =~= start + self.spec_wire());
    }
}

impl WireRead for CrdsFilter {
    fn read_wire(bytes: &[u8], pos: usize) -> (r: Option<(Self, usize)>) {
        match CrdsValueLabel::read_wire(bytes, pos) {
            Some((filter, end)) => {
                let v = CrdsFilter { filter };
                proof {
                    assert forall|w: CrdsFilter| #[trigger]
                        wire_at(bytes@, pos as int, w.spec_wire()) implies w.spec_wire() == v.spec_wire() by {
                        assert(w.filter.spec_wire() == w.spec_wire());
                    }
                }
                Some((v, end))
            },
            None => {
                assert forall|w: CrdsFilter| !#[trigger] wire_at(bytes@, pos as int, w.spec_wire()) by {
                    assert(w.filter.spec_wire() == w.spec_wire());
                }
                None
            },
        }
    }

    proof fn lemma_encoding_nonempty(v: Self) {
        CrdsValueLabel::lemma_encoding_nonempty(v.filter);
    }
}

/// A prune message read as its fields in order.
type PruneDataFields = ((((Pubkey, Vec<Pubkey>), Signature), Pubkey), u64);

impl WireRead for PruneData {
    fn read_wire(bytes: &[u8], pos: usize) -> (r: Option<(Self, usize)>) {
        match PruneDataFields::read_wire(bytes, pos) {
            Some((((((pubkey, prunes), signature), destination), wallclock), end)) => {
                let v = PruneData { pubkey, prunes, signature, destination, wallclock };
                proof {
                    assert forall|w: PruneData| #[trigger]
                        wire_at(bytes@, pos as int, w.spec_wire()) implies w.spec_wire() == v.spec_wire() by {
                        assert((((((w.pubkey, w.prunes), w.signature), w.destination), w.wallclock)).spec_wire()
                            == w.spec_wire());
                    }
                }
                Some((v, end))
            },
            None => {
                assert forall|w: PruneData| !#[trigger] wire_at(bytes@, pos as int, w.spec_wire()) by {
                    assert((((((w.pubkey, w.prunes), w.signature), w.destination), w.wallclock)).spec_wire()
                        == w.spec_wire());
                }
                None
            },
        }
    }

    proof fn lemma_encoding_nonempty(v: Self) {
    }
}

/// Whether the value's signature holds over its payload's encoding under
/// the key of the node the payload describes.
pub open spec fn value_signed(v: CrdsValue) -> bool {
    spec_signature_verify(v.signature.0@, v.spec_pubkey().0@, v.data.spec_wire())
}

/// The kept values are exactly the signed ones: each kept value is signed
/// and came in, each signed value that came in is kept, and nothing is kept
/// exactly when nothing is signed.
proof fn lemma_verified_values_exact(data: Seq<CrdsValue>)
    ensures
        forall|j: int|
            0 <= j < verified_values(data).len() ==> value_signed(#[trigger] verified_values(data)[j])
                && data.contains(verified_values(data)[j]),
        forall|i: int|
            0 <= i < data.len() && value_signed(#[trigger] data[i]) ==> verified_values(data).contains(
                data[i],
            ),
        verified_values(data).len() == 0 <==> forall|i: int|
            0 <= i < data.len() ==> !value_signed(#[trigger] data[i]),
{
    let pred = |v: CrdsValue| v.spec_verify();
    let vv = data.filter(pred);
    assert forall|j: int| 0 <= j < vv.len() implies value_signed(#[trigger] vv[j]) && data.contains(
        vv[j],
    ) by {
        data.lemma_filter_pred(pred, j);
        assert(vv.contains(vv[j]));
        data.lemma_filter_contains_rev(pred, vv[j]);
    }
    assert forall|i: int| 0 <= i < data.len() && value_signed(#[trigger] data[i]) implies vv.contains(
        data[i],
    ) by {
        data.lemma_filter_contains(pred, i);
    }
    if vv.len() == 0 {
        assert forall|i: int| 0 <= i < data.len() implies !value_signed(#[trigger] data[i]) by {
            if value_signed(data[i]) {
                data.lemma_filter_contains(pred, i);
            }
        }
    } else {
        data.lemma_filter_pred(pred, 0);
        assert(vv.contains(vv[0]));
        data.lemma_filter_contains_rev(pred, vv[0]);
        let i = choose|i: int| 0 <= i < data.len() && data[i] == vv[0];
        assert(value_signed(data[i]));
    }
}

/// Law (only signed messages survive the check): a pull request, prune, ping
/// or pong is kept, unchanged, exactly when its signature holds over the
/// bytes it signs under its sender's key; a pull response or push message is
/// kept exactly when one of its values is signed, and then it keeps its
/// sender, every value it keeps is signed and came in, and every signed value
/// that came in is kept.
pub proof fn lemma_par_verify_keeps_only_signed(p: Protocol, r: Option<Protocol>)
    requires
        p.spec_par_verify(r),
    ensures
        match p {
            Protocol::PingMessage(ping) => (r is Some <==> spec_signature_verify(
                ping.signature.0@,
                ping.from.0@,
                ping.token@,
            )) && (r is Some ==> r == Some(p)),
            Protocol::PongMessage(pong) => (r is Some <==> spec_signature_verify(
                pong.signature.0@,
                pong.from.0@,
                pong.hash.0@,
            )) && (r is Some ==> r == Some(p)),
            Protocol::PruneMessage(_, d) => (r is Some <==> spec_signature_verify(
                d.signature.0@,
                d.pubkey.0@,
                d.pubkey.spec_wire() + wire_seq(d.prunes@) + d.destination.spec_wire() + enc_u64(
                    d.wallclock,
                ),
            )) && (r is Some ==> r == Some(p)),
            Protocol::PullRequest(_, caller) => (r is Some <==> value_signed(caller)) && (r is Some
                ==> r == Some(p)),
            Protocol::PullResponse(from, data) => {
                &&& r is Some <==> exists|i: int| 0 <= i < data@.len() && value_signed(#[trigger] data@[i])
                &&& r is Some ==> (r matches Some(Protocol::PullResponse(f, d)) && f == from
                    && (forall|j: int| 0 <= j < d@.len() ==> value_signed(#[trigger] d@[j])
                        && data@.contains(d@[j])) && (forall|i: int|
                    0 <= i < data@.len() && value_signed(#[trigger] data@[i]) ==> d@.contains(data@[i])))
            },
            Protocol::PushMessage(from, data) => {
                &&& r is Some <==> exists|i: int| 0 <= i < data@.len() && value_signed(#[trigger] data@[i])
                &&& r is Some ==> (r matches Some(Protocol::PushMessage(f, d)) && f == from
                    && (forall|j: int| 0 <= j < d@.len() ==> value_signed(#[trigger] d@[j])
                        && data@.contains(d@[j])) && (forall|i: int|
                    0 <= i < data@.len() && value_signed(#[trigger] data@[i]) ==> d@.contains(data@[i])))
            },
        },
{
    match p {
        Protocol::PullResponse(_, data) => {
            lemma_verified_values_exact(data@);
        },
        Protocol::PushMessage(_, data) => {
            lemma_verified_values_exact(data@);
        },
        _ => {},
    }
}

/// A message's encoding is its variant's index followed by its payload.
proof fn lemma_protocol_wire(p: Protocol)
    ensures
        match p {
            Protocol::PullRequest(f, v) => p.spec_wire() == enc_u32(0) + (f, v).spec_wire(),
            Protocol::PullResponse(a, vs) => p.spec_wire() == enc_u32(1) + (a, vs).spec_wire(),
            Protocol::PushMessage(a, vs) => p.spec_wire() == enc_u32(2) + (a, vs).spec_wire(),
            Protocol::PruneMessage(a, d) => p.spec_wire() == enc_u32(3) + (a, d).spec_wire(),
            Protocol::PingMessage(ping) => p.spec_wire() == enc_u32(4) + ping.spec_wire(),
            Protocol::PongMessage(pong) => p.spec_wire() == enc_u32(5) + pong.spec_wire(),
        },
{
    match p {
        Protocol::PullRequest(f, v) => assert(p.spec_wire() =~= enc_u32(0) + (f, v).spec_wire()),
        Protocol::PullResponse(a, vs) => assert(p.spec_wire() =~= enc_u32(1) + (a, vs).spec_wire()),
        Protocol::PushMessage(a, vs) => assert(p.spec_wire() =~= enc_u32(2) + (a, vs).spec_wire()),
        Protocol::PruneMessage(a, d) => assert(p.spec_wire() =~= enc_u32(3) + (a, d).spec_wire()),
        Protocol::PingMessage(_) => {},
        Protocol::PongMessage(_) => {},
    }
}

/// A message's encoding sits at `pos` exactly when its variant's index does
/// and its payload follows.
proof fn lemma_protocol_split(bytes: Seq<u8>, pos: int, w: Protocol)
    ensures
        match w {
            Protocol::PullRequest(f, v) => wire_at(bytes, pos, w.spec_wire()) <==> (wire_at(
                bytes,
                pos,
                enc_u32(0),
            ) && wire_at(bytes, pos + 4, (f, v).spec_wire())),
            Protocol::PullResponse(p, vs) => wire_at(bytes, pos, w.spec_wire()) <==> (wire_at(
                bytes,
                pos,
                enc_u32(1),
            ) && wire_at(bytes, pos + 4, (p, vs).spec_wire())),
            Protocol::PushMessage(p, vs) => wire_at(bytes, pos, w.spec_wire()) <==> (wire_at(
                bytes,
                pos,
                enc_u32(2),
            ) && wire_at(bytes, pos + 4, (p, vs).spec_wire())),
            Protocol::PruneMessage(p, d) => wire_at(bytes, pos, w.spec_wire()) <==> (wire_at(
                bytes,
                pos,
                enc_u32(3),
            ) && wire_at(bytes, pos + 4, (p, d).spec_wire())),
            Protocol::PingMessage(ping) => wire_at(bytes, pos, w.spec_wire()) <==> (wire_at(
                bytes,
                pos,
                enc_u32(4),
            ) && wire_at(bytes, pos + 4, ping.spec_wire())),
            Protocol::PongMessage(pong) => wire_at(bytes, pos, w.spec_wire()) <==> (wire_at(
                bytes,
                pos,
                enc_u32(5),
            ) && wire_at(bytes, pos + 4, pong.spec_wire())),
        },
{
    lemma_protocol_wire(w);
    match w {
        Protocol::PullRequest(f, v) => lemma_tagged_at(bytes, pos, 0, (f, v).spec_wire()),
        Protocol::PullResponse(p, vs) => lemma_tagged_at(bytes, pos, 1, (p, vs).spec_wire()),
        Protocol::PushMessage(p, vs) => lemma_tagged_at(bytes, pos, 2, (p, vs).spec_wire()),
        Protocol::PruneMessage(p, d) => lemma_tagged_at(bytes, pos, 3, (p, d).spec_wire()),
        Protocol::PingMessage(ping) => lemma_tagged_at(bytes, pos, 4, ping.spec_wire()),
        Protocol::PongMessage(pong) => lemma_tagged_at(bytes, pos, 5, pong.spec_wire()),
    }
}

impl WireRead for Protocol {
    fn read_wire(bytes: &[u8], pos: usize) -> (r: Option<(Self, usize)>) {
        let (tag, start) = match read_u32(bytes, pos) {
            Some(x) => x,
            None => {
                assert forall|w: Protocol| !#[trigger] wire_at(bytes@, pos as int, w.spec_wire()) by {
                    lemma_protocol_split(bytes@, pos as int, w);
                }
                return None;
            },
        };
        if tag == 0 {
            match <(CrdsFilter, CrdsValue)>::read_wire(bytes, start) {
                Some(((a, b), end)) => {
                    let v = Protocol::PullRequest(a, b);
                    proof {
                        lemma_tagged_at(bytes@, pos as int, 0, (a, b).spec_wire());
                        lemma_protocol_wire(v);
                        assert forall|w: Protocol| #[trigger]
                            wire_at(bytes@, pos as int, w.spec_wire()) implies w.spec_wire() == v.spec_wire() by {
                            lemma_protocol_split(bytes@, pos as int, w);
                        }
                    }
                    Some((v, end))
                },
                None => {
                    assert forall|w: Protocol| !#[trigger] wire_at(bytes@, pos as int, w.spec_wire()) by {
                        lemma_protocol_split(bytes@, pos as int, w);
                    }
                    None
                },
            }
        } else if tag == 1 {
            match <(Pubkey, Vec<CrdsValue>)>::read_wire(bytes, start) {
                Some(((a, b), end)) => {
                    let v = Protocol::PullResponse(a, b);
                    proof {
                        lemma_tagged_at(bytes@, pos as int, 1, (a, b).spec_wire());
                        lemma_protocol_wire(v);
                        assert forall|w: Protocol| #[trigger]
                            wire_at(bytes@, pos as int, w.spec_wire()) implies w.spec_wire() == v.spec_wire() by {
                            lemma_protocol_split(bytes@, pos as int, w);
                        }
                    }
                    Some((v, end))
                },
                None => {
                    assert forall|w: Protocol| !#[trigger] wire_at(bytes@, pos as int, w.spec_wire()) by {
                        lemma_protocol_split(bytes@, pos as int, w);
                    }
                    None
                },
            }
        } else if tag == 2 {
            match <(Pubkey, Vec<CrdsValue>)>::read_wire(bytes, start) {
                Some(((a, b), end)) => {
                    let v = Protocol::PushMessage(a, b);
                    proof {
                        lemma_tagged_at(bytes@, pos as int, 2, (a, b).spec_wire());
                        lemma_protocol_wire(v);
                        assert forall|w: Protocol| #[trigger]
                            wire_at(bytes@, pos as int, w.spec_wire()) implies w.spec_wire() == v.spec_wire() by {
                            lemma_protocol_split(bytes@, pos as int, w);
                        }
                    }
                    Some((v, end))
                },
                None => {
                    assert forall|w: Protocol| !#[trigger] wire_at(bytes@, pos as int, w.spec_wire()) by {
                        lemma_protocol_split(bytes@, pos as int, w);
                    }
                    None
                },
            }
        } else if tag == 3 {
            match <(Pubkey, PruneData)>::read_wire(bytes, start) {
                Some(((a, b), end)) => {
                    let v = Protocol::PruneMessage(a, b);
                    proof {
                        lemma_tagged_at(bytes@, pos as int, 3, (a, b).spec_wire());
                        lemma_protocol_wire(v);
                        assert forall|w: Protocol| #[trigger]
                            wire_at(bytes@, pos as int, w.spec_wire()) implies w.spec_wire() == v.spec_wire() by {
                            lemma_protocol_split(bytes@, pos as int, w);
                        }
                    }
                    Some((v, end))
                },
                None => {
                    assert forall|w: Protocol| !#[trigger] wire_at(bytes@, pos as int, w.spec_wire()) by {
                        lemma_protocol_split(bytes@, pos as int, w);
                    }
                    None
                },
            }
        } else if tag == 4 {
            match Ping::read_wire(bytes, start) {
                Some((a, end)) => {
                    let v = Protocol::PingMessage(a);
                    proof {
                        lemma_tagged_at(bytes@, pos as int, 4, a.spec_wire());
                        lemma_protocol_wire(v);
                        assert forall|w: Protocol| #[trigger]
                            wire_at(bytes@, pos as int, w.spec_wire()) implies w.spec_wire() == v.spec_wire() by {
                            lemma_protocol_split(bytes@, pos as int, w);
                        }
                    }
                    Some((v, end))
                },
                None => {
                    assert forall|w: Protocol| !#[trigger] wire_at(bytes@, pos as int, w.spec_wire()) by {
                        lemma_protocol_split(bytes@, pos as int, w);
                    }
                    None
                },
            }
        } else if tag == 5 {
            match Pong::read_wire(bytes, start) {
                Some((a, end)) => {
                    let v = Protocol::PongMessage(a);
                    proof {
                        lemma_tagged_at(bytes@, pos as int, 5, a.spec_wire());
                        lemma_protocol_wire(v);
                        assert forall|w: Protocol| #[trigger]
                            wire_at(bytes@, pos as int, w.spec_wire()) implies w.spec_wire() == v.spec_wire() by {
                            lemma_protocol_split(bytes@, pos as int, w);
                        }
                    }
                    Some((v, end))
                },
                None => {
                    assert forall|w: Protocol| !#[trigger] wire_at(bytes@, pos as int, w.spec_wire()) by {
                        lemma_protocol_split(bytes@, pos as int, w);
                    }
                    None
                },
            }
        } else {
            assert forall|w: Protocol| !#[trigger] wire_at(bytes@, pos as int, w.spec_wire()) by {
                lemma_protocol_split(bytes@, pos as int, w);
            }
            None
        }
    }

    proof fn lemma_encoding_nonempty(v: Self) {
        lemma_protocol_wire(v);
        match v {
            Protocol::PullRequest(f, x) => lemma_tagged_at(Seq::empty(), 0, 0, (f, x).spec_wire()),
            Protocol::PullResponse(p, vs) => lemma_tagged_at(Seq::empty(), 0, 1, (p, vs).spec_wire()),
            Protocol::PushMessage(p, vs) => lemma_tagged_at(Seq::empty(), 0, 2, (p, vs).spec_wire()),
            Protocol::PruneMessage(p, d) => lemma_tagged_at(Seq::empty(), 0, 3, (p, d).spec_wire()),
            Protocol::PingMessage(ping) => lemma_tagged_at(Seq::empty(), 0, 4, ping.spec_wire()),
            Protocol::PongMessage(pong) => lemma_tagged_at(Seq::empty(), 0, 5, pong.spec_wire()),
        }
    }
}

} // verus!
