//! The transaction relay: request options and the batching of transactions
//! before they are forwarded to the leaders.
//!
//! Transactions arrive one by one on a channel. They are collected into a
//! batch until the batch holds more than the batch size, or until a wait for
//! the next transaction times out while a sending slot is free. The program
//! that runs the relay waits for the events and performs the actions; the
//! decisions are made here.
//!
//! The relay's identity comes from the `IDENTITY` variable (a JSON byte
//! array, or the path of a file holding one), else from the file named on
//! the command line, else a fresh keypair.
//!
//! Forwarded transactions are kept by signature until they are confirmed:
//! each is sent again, on every round of retries, until it is confirmed or
//! it has been sent again `MAX_TX_RETRIES` times.

use crate::primitives::{spec_keypair_bytes_accepted, Keypair, Pubkey};
use vstd::prelude::*;

verus! {

/// A transaction in its wire encoding.
pub type WireTransaction = Vec<u8>;

/// How many batches may be in flight at once.
pub const NUMBER_OF_TX_SENDERS: usize = 5usize;

/// How a transaction handed to `sendTransaction` is encoded.
#[derive(Clone, Copy, Debug, PartialEq, Eq, Structural)]
pub enum BinaryEncoding {
    Base58,
    Base64,
}

impl Default for BinaryEncoding {
    fn default() -> (e: Self)
        ensures
            e == BinaryEncoding::Base58,
    {
        BinaryEncoding::Base58
    }
}

/// The options of a `sendTransaction` request.
#[derive(Clone, Copy, Debug)]
pub struct SendTransactionConfig {
    pub encoding: BinaryEncoding,
    pub max_retries: Option<u16>,
}

impl Default for SendTransactionConfig {
    /// Base58 encoding and the relay's own retry policy.
    fn default() -> (c: Self)
        ensures
            c.encoding == BinaryEncoding::Base58,
            c.max_retries is None,
    {
        SendTransactionConfig { encoding: BinaryEncoding::Base58, max_retries: None }
    }
}

/// What a block's votes say of the validators that cast them.
#[derive(Clone, Debug, Default)]
pub struct BlockHeader {
    pub vote_signature: Vec<Option<String>>,
    pub validator_identity: Vec<Option<Pubkey>>,
    pub validator_stake: Vec<Option<u64>>,
}

/// The transactions collected for the next batch: each signature with the
/// slot it was sent for, and the transaction itself, in arrival order.
pub struct TxBatch {
    sigs_and_slots: Vec<(String, u64)>,
    txs: Vec<WireTransaction>,
}

/// What happened while the relay waited for the next transaction.
pub enum BatchEvent {
    /// A transaction arrived.
    Received { signature: String, tx: WireTransaction, slot: u64 },
    /// The channel was closed: no transaction will come.
    ChannelClosed,
    /// The wait timed out; `permit_acquired` tells whether a free sending
    /// slot was taken meanwhile.
    TimedOut { permit_acquired: bool },
}

/// What the relay does next.
#[derive(Clone, Copy, Debug, PartialEq, Eq, Structural)]
pub enum BatchAction {
    /// Wait for the next transaction.
    Wait,
    /// Forward the batch; when `permit_held` is false a sending slot must be
    /// waited for first.
    Send { permit_held: bool },
    /// The wait timed out with nothing collected: release the sending slot
    /// and start over.
    Discard,
    /// The channel is gone: the relay stops with an error.
    Stop,
}

impl TxBatch {
    /// The signatures and slots collected, in arrival order.
    pub closed spec fn spec_sigs(self) -> Seq<(String, u64)> {
        self.sigs_and_slots@
    }

    /// The transactions collected, in arrival order.
    pub closed spec fn spec_txs(self) -> Seq<WireTransaction> {
        self.txs@
    }

    /// Each signature goes with the transaction at the same position.
    pub closed spec fn wf(self) -> bool {
        self.sigs_and_slots@.len() == self.txs@.len()
    }

    /// An empty batch.
    pub fn new() -> (b: TxBatch)
        ensures
            b.wf(),
            b.spec_sigs() == Seq::<(String, u64)>::empty(),
            b.spec_txs() == Seq::<WireTransaction>::empty(),
    {
        TxBatch { sigs_and_slots: Vec::new(), txs: Vec::new() }
    }

    /// How many transactions are collected.
    pub fn len(&self) -> (n: usize)
        requires
            self.wf(),
        ensures
            n == self.spec_txs().len(),
            n == self.spec_sigs().len(),
    {
        self.txs.len()
    }

    /// Hands the collected signatures and transactions over for sending,
    /// each list in arrival order and of the same length.
    pub fn into_parts(self) -> (parts: (Vec<(String, u64)>, Vec<WireTransaction>))
        requires
            self.wf(),
        ensures
            parts.0@ == self.spec_sigs(),
            parts.1@ == self.spec_txs(),
            parts.0@.len() == parts.1@.len(),
    {
        (self.sigs_and_slots, self.txs)
    }

    /// Takes one event into account and says what to do next. A received
    /// transaction joins the batch, which is sent once it holds more than
    /// `batch_size` transactions. A timeout with a free sending slot sends
    /// what was collected, or starts over when nothing was. A batch is only
    /// sent with something in it, and never more than one transaction beyond
    /// the batch size.
    pub fn on_event(&mut self, batch_size: usize, event: BatchEvent) -> (action: BatchAction)
        requires
            old(self).wf(),
            old(self).spec_txs().len() <= batch_size,
        ensures
            final(self).wf(),
            action is Send ==> 0 < final(self).spec_txs().len() <= batch_size + 1,
            match event {
                BatchEvent::Received { signature, tx, slot } => {
                    &&& final(self).spec_sigs() == old(self).spec_sigs().push((signature, slot))
                    &&& final(self).spec_txs() == old(self).spec_txs().push(tx)
                    &&& action == if final(self).spec_txs().len() > batch_size {
                        BatchAction::Send { permit_held: false }
                    } else {
                        BatchAction::Wait
                    }
                },
                BatchEvent::ChannelClosed => {
                    &&& final(self).spec_sigs() == old(self).spec_sigs()
                    &&& final(self).spec_txs() == old(self).spec_txs()
                    &&& action == BatchAction::Stop
                },
                BatchEvent::TimedOut { permit_acquired } => {
                    &&& final(self).spec_sigs() == old(self).spec_sigs()
                    &&& final(self).spec_txs() == old(self).spec_txs()
                    &&& action == if !permit_acquired {
                        BatchAction::Wait
                    } else if old(self).spec_txs().len() == 0 {
                        BatchAction::Discard
                    } else {
                        BatchAction::Send { permit_held: true }
                    }
                },
            },
    {
        match event {
            BatchEvent::Received { signature, tx, slot } => {
                self.sigs_and_slots.push((signature, slot));
                self.txs.push(tx);
                if self.txs.len() > batch_size {
                    BatchAction::Send { permit_held: false }
                } else {
                    BatchAction::Wait
                }
            },
            BatchEvent::ChannelClosed => BatchAction::Stop,
            BatchEvent::TimedOut { permit_acquired } => {
                if !permit_acquired {
                    BatchAction::Wait
                } else if self.txs.len() == 0 {
                    BatchAction::Discard
                } else {
                    BatchAction::Send { permit_held: true }
                }
            },
        }
    }
}

/// The most times a forwarded transaction is sent again.
pub const MAX_TX_RETRIES: u16 = 65535u16;

/// What the relay knows of a forwarded transaction: its signature, the
/// transaction, the slot it was sent for, how many times it was sent again,
/// and whether it was confirmed.
pub struct SentTxView {
    pub signature: Seq<char>,
    pub tx: Seq<u8>,
    pub slot: u64,
    pub retries: u16,
    pub confirmed: bool,
}

/// A transaction as it is first recorded: sent once, not yet confirmed.
pub open spec fn fresh_sent(signature: Seq<char>, tx: Seq<u8>, slot: u64) -> SentTxView {
    SentTxView { signature, tx, slot, retries: 0, confirmed: false }
}

/// The position of the transaction with `signature`, if one is kept.
pub open spec fn position_of_signature(entries: Seq<SentTxView>, signature: Seq<char>) -> Option<int> {
    if exists|i: int| 0 <= i < entries.len() && entries[i].signature == signature {
        Some(choose|i: int| 0 <= i < entries.len() && entries[i].signature == signature)
    } else {
        None
    }
}

/// Whether a kept transaction is sent again on the next round: it is not
/// confirmed and has been sent again fewer than `MAX_TX_RETRIES` times.
pub open spec fn is_due(e: SentTxView) -> bool {
    !e.confirmed && e.retries < MAX_TX_RETRIES
}

/// The transactions sent again on a round, in the order they are kept.
pub open spec fn due_txs(entries: Seq<SentTxView>) -> Seq<Seq<u8>>
    decreases entries.len(),
{
    if entries.len() == 0 {
        Seq::empty()
    } else if is_due(entries.last()) {
        due_txs(entries.drop_last()).push(entries.last().tx)
    } else {
        due_txs(entries.drop_last())
    }
}

/// A kept transaction after a round of retries: counted once more when it
/// was due.
pub open spec fn after_retry(e: SentTxView) -> SentTxView {
    if is_due(e) {
        SentTxView { retries: (e.retries + 1) as u16, ..e }
    } else {
        e
    }
}

/// The transactions forwarded so far, by signature, each with its count of
/// retries and whether it was confirmed.
pub struct TxStore {
    sent: Vec<(String, WireTransaction, u64)>,
    status: Vec<(u16, bool)>,
}

impl TxStore {
    /// The kept transactions, in the order they were first recorded.
    pub closed spec fn entries(self) -> Seq<SentTxView> {
        Seq::new(
            self.sent@.len(),
            |i: int|
                SentTxView {
                    signature: self.sent@[i].0@,
                    tx: self.sent@[i].1@,
                    slot: self.sent@[i].2,
                    retries: self.status@[i].0,
                    confirmed: self.status@[i].1,
                },
        )
    }

    /// Each signature is kept once.
    pub closed spec fn wf(self) -> bool {
        &&& self.sent@.len() == self.status@.len()
        &&& forall|i: int, j: int|
            0 <= i < self.sent@.len() && 0 <= j < self.sent@.len() && i != j
                ==> #[trigger] self.sent@[i].0@ != #[trigger] self.sent@[j].0@
    }

    /// Nothing kept yet.
    pub fn new() -> (s: TxStore)
        ensures
            s.wf(),
            s.entries() == Seq::<SentTxView>::empty(),
    {
        let s = TxStore { sent: Vec::new(), status: Vec::new() };
        assert(s.entries() =~= Seq::<SentTxView>::empty());
        s
    }

    /// Where the transaction with `signature` is kept, if it is.
    fn find(&self, signature: &String) -> (r: Option<usize>)
        requires
            self.wf(),
        ensures
            match r {
                Some(i) => position_of_signature(self.entries(), signature@) == Some(i as int),
                None => position_of_signature(self.entries(), signature@) is None,
            },
    {
        let ghost e = self.entries();
        let mut i: usize = 0;
        while i < self.sent.len()
            invariant
                self.wf(),
                e == self.entries(),
                0 <= i <= self.sent@.len(),
                forall|j: int| 0 <= j < i ==> #[trigger] e[j].signature != signature@,
            decreases self.sent@.len() - i,
        {
            if self.sent[i].0 == *signature {
                proof {
                    assert(e[i as int].signature == signature@);
                    let k = choose|k: int| 0 <= k < e.len() && e[k].signature == signature@;
                    if k != i as int {
                        assert(self.sent@[k].0@ != self.sent@[i as int].0@);
                    }
                }
                return Some(i);
            }
            i = i + 1;
        }
        None
    }

    /// Records a forwarded transaction as sent once and not confirmed. A
    /// signature already kept is recorded afresh in its place.
    pub fn record_sent(&mut self, signature: String, tx: WireTransaction, slot: u64)
        requires
            old(self).wf(),
        ensures
            final(self).wf(),
            final(self).entries() == match position_of_signature(old(self).entries(), signature@) {
                Some(i) => old(self).entries().update(i, fresh_sent(signature@, tx@, slot)),
                None => old(self).entries().push(fresh_sent(signature@, tx@, slot)),
            },
    {
        let ghost e = self.entries();
        let ghost new_entry = fresh_sent(signature@, tx@, slot);
        match self.find(&signature) {
            Some(i) => {
                self.sent.set(i, (signature, tx, slot));
                self.status.set(i, (0u16, false));
                assert(self.entries() =~= e.update(i as int, new_entry));
            },
            None => {
                proof {
                    assert forall|j: int| 0 <= j < e.len() implies #[trigger] e[j].signature
                        != signature@ by {
                        if e[j].signature == signature@ {
                            assert(exists|k: int| 0 <= k < e.len() && e[k].signature == signature@);
                        }
                    }
                }
                self.sent.push((signature, tx, slot));
                self.status.push((0u16, false));
                assert(self.entries() =~= e.push(new_entry));
                assert forall|i: int, j: int|
                    0 <= i < self.sent@.len() && 0 <= j < self.sent@.len() && i != j
                        implies #[trigger] self.sent@[i].0@ != #[trigger] self.sent@[j].0@ by {
                    if i < e.len() && j < e.len() {
                    } else if i < e.len() {
                        assert(e[i].signature == self.sent@[i].0@);
                    } else {
                        assert(e[j].signature == self.sent@[j].0@);
                    }
                }
            },
        }
    }

    /// Records that the transaction with `signature` was confirmed; says
    /// whether it is kept.
    pub fn confirm(&mut self, signature: &String) -> (held: bool)
        requires
            old(self).wf(),
        ensures
            final(self).wf(),
            held == (position_of_signature(old(self).entries(), signature@) is Some),
            final(self).entries() == match position_of_signature(old(self).entries(), signature@) {
                Some(i) => old(self).entries().update(
                    i,
                    SentTxView { confirmed: true, ..old(self).entries()[i] },
                ),
                None => old(self).entries(),
            },
    {
        let ghost e = self.entries();
        match self.find(signature) {
            Some(i) => {
                let retries = self.status[i].0;
                self.status.set(i, (retries, true));
                assert(self.entries() =~= e.update(
                    i as int,
                    SentTxView { confirmed: true, ..e[i as int] },
                ));
                true
            },
            None => false,
        }
    }

    /// A round of retries: every kept transaction that is not confirmed and
    /// has been sent again fewer than `MAX_TX_RETRIES` times is handed back to
    /// be sent again, in the order kept, and counted once more. Confirmed
    /// transactions, and those sent again `MAX_TX_RETRIES` times, are left as
    /// they are and not sent.
    pub fn take_retries(&mut self) -> (txs: Vec<WireTransaction>)
        requires
            old(self).wf(),
        ensures
            final(self).wf(),
            final(self).entries() == old(self).entries().map_values(|e: SentTxView| after_retry(e)),
            txs@.map_values(|t: WireTransaction| t@) == due_txs(old(self).entries()),
    {
        let ghost e = self.entries();
        let mut txs: Vec<WireTransaction> = Vec::new();
        let mut i: usize = 0;
        while i < self.status.len()
            invariant
                self.wf(),
                e.len() == self.status@.len(),
                0 <= i <= e.len(),
                forall|j: int| 0 <= j < i ==> #[trigger] self.entries()[j] == after_retry(e[j]),
                forall|j: int| i <= j < e.len() ==> #[trigger] self.entries()[j] == e[j],
                txs@.map_values(|t: WireTransaction| t@) == due_txs(e.take(i as int)),
            decreases e.len() - i,
        {
            let ghost before = self.entries();
            let (retries, confirmed) = self.status[i];
            assert(before[i as int] == e[i as int]);
            assert(e.take(i as int + 1).drop_last() =~= e.take(i as int));
            assert(e.take(i as int + 1).last() == e[i as int]);
            if !confirmed && retries < MAX_TX_RETRIES {
                let tx = self.sent[i].1.clone();
                assert(tx@ =~= e[i as int].tx);
                let ghost out = txs@.map_values(|t: WireTransaction| t@);
                txs.push(tx);
                assert(txs@.map_values(|t: WireTransaction| t@) =~= out.push(e[i as int].tx));
                self.status.set(i, ((retries + 1) as u16, confirmed));
                assert(self.entries()[i as int] == after_retry(e[i as int]));
                assert forall|j: int| 0 <= j < e.len() && j != i implies #[trigger] self.entries()[j]
                    == before[j] by {}
            }
            i = i + 1;
        }
        assert(e.take(e.len() as int) =~= e);
        assert(self.entries() =~= e.map_values(|x: SentTxView| after_retry(x)));
        txs
    }
}

/// The bytes that `serde_json` reads from `text` as a `Vec<u8>` (a JSON
/// array of numbers from 0 to 255), or `None` where it reads none.
pub uninterp spec fn spec_json_u8_array(text: Seq<char>) -> Option<Seq<u8>>;

/// Calls `serde_json::from_str::<Vec<u8>>`. Claims that the outcome is
/// `spec_json_u8_array` of the text.
#[verifier::external_body]
fn json_u8_array(text: &str) -> (r: Option<Vec<u8>>)
    ensures
        match r {
            Some(v) => spec_json_u8_array(text@) == Some(v@),
            None => spec_json_u8_array(text@) is None,
        },
{
    serde_json::from_str::<Vec<u8>>(text).ok()
}

/// The keypair whose 64-byte encoding `text` holds as a JSON byte array;
/// `None` where the text is no such array or the bytes are no keypair.
pub fn keypair_from_json(text: &str) -> (r: Option<Keypair>)
    ensures
        match spec_json_u8_array(text@) {
            Some(b) => (r is Some <==> spec_keypair_bytes_accepted(b)) && (r matches Some(k)
                ==> k.view_bytes() == b),
            None => r is None,
        },
{
    match json_u8_array(text) {
        Some(bytes) => Keypair::from_bytes(bytes.as_slice()),
        None => None,
    }
}

/// Where the relay's identity comes from.
#[derive(Clone, Debug)]
pub enum IdentitySource {
    /// The keypair's bytes, given directly.
    Bytes(Vec<u8>),
    /// A file that holds the keypair as a JSON byte array.
    File(String),
    /// A keypair made afresh.
    Fresh,
}

/// Decides where the identity comes from, given the `IDENTITY` variable
/// (`None` when it is not set) and the path given on the command line. A set
/// variable that reads as a JSON byte array gives the bytes; any other set
/// variable names a file. Without the variable, an empty path asks for a
/// fresh keypair and any other path names a file.
pub fn identity_source(env: Option<String>, cli: String) -> (s: IdentitySource)
    ensures
        match env {
            Some(text) => match spec_json_u8_array(text@) {
                Some(b) => s matches IdentitySource::Bytes(v) && v@ == b,
                None => s matches IdentitySource::File(p) && p@ == text@,
            },
            None => if cli@.len() == 0 {
                s is Fresh
            } else {
                s matches IdentitySource::File(p) && p@ == cli@
            },
        },
{
    match env {
        Some(text) => match json_u8_array(text.as_str()) {
            Some(bytes) => IdentitySource::Bytes(bytes),
            None => IdentitySource::File(text),
        },
        None => {
            if cli.as_str().is_empty() {
                IdentitySource::Fresh
            } else {
                IdentitySource::File(cli)
            }
        },
    }
}

} // verus!
