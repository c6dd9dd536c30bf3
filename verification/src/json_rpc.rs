//! The text of the JSON-RPC requests the client sends, and the address of an
//! RPC node's subscription socket.
//!
//! Requests are compact JSON objects whose keys appear in sorted order, the
//! form in which `serde_json` writes a `json!` object.

use vstd::prelude::*;
use vstd::string::StrSliceExecFns;

verus! {

/// Calls `String::push`, which appends one character.
#[verifier::external_body]
pub(crate) fn push_char(s: &mut String, c: char)
    ensures
        final(s)@ == old(s)@.push(c),
{
    s.push(c);
}

/// Appends the characters of `text`.
pub fn push_text(out: &mut String, text: &str)
    ensures
        final(out)@ == old(out)@ + text@,
{
    let ghost start = out@;
    let n = text.unicode_len();
    let mut i: usize = 0;
    while i < n
        invariant
            n == text@.len(),
            0 <= i <= n,
            out@ == start + text@.take(i as int),
        decreases n - i,
    {
        let c = text.get_char(i);
        push_char(out, c);
        assert(out@ =~= start + text@.take(i as int + 1));
        i = i + 1;
    }
    assert(text@.take(n as int) =~= text@);
}

/// The character of a decimal digit.
pub open spec fn spec_digit(d: nat) -> char {
    if d == 0 {
        '0'
    } else if d == 1 {
        '1'
    } else if d == 2 {
        '2'
    } else if d == 3 {
        '3'
    } else if d == 4 {
        '4'
    } else if d == 5 {
        '5'
    } else if d == 6 {
        '6'
    } else if d == 7 {
        '7'
    } else if d == 8 {
        '8'
    } else {
        '9'
    }
}

/// The decimal numeral of `n`, without leading zeros.
pub open spec fn spec_decimal(n: nat) -> Seq<char>
    decreases n,
{
    if n < 10 {
        seq![spec_digit(n)]
    } else {
        spec_decimal(n / 10).push(spec_digit(n % 10))
    }
}

fn digit(d: u64) -> (c: char)
    requires
        d < 10,
    ensures
        c == spec_digit(d as nat),
{
    if d == 0 {
        '0'
    } else if d == 1 {
        '1'
    } else if d == 2 {
        '2'
    } else if d == 3 {
        '3'
    } else if d == 4 {
        '4'
    } else if d == 5 {
        '5'
    } else if d == 6 {
        '6'
    } else if d == 7 {
        '7'
    } else if d == 8 {
        '8'
    } else {
        '9'
    }
}

/// Appends the decimal numeral of `n`.
pub fn push_decimal(out: &mut String, n: u64)
    ensures
        final(out)@ == old(out)@ + spec_decimal(n as nat),
    decreases n,
{
    let ghost start = out@;
    if n >= 10 {
        push_decimal(out, n / 10);
    }
    push_char(out, digit(n % 10));
    assert(out@ =~= start + spec_decimal(n as nat));
}

/// The numerals of `items`, separated by commas.
pub open spec fn spec_decimal_list(items: Seq<usize>) -> Seq<char>
    decreases items.len(),
{
    if items.len() == 0 {
        Seq::empty()
    } else if items.len() == 1 {
        spec_decimal(items[0] as nat)
    } else {
        spec_decimal_list(items.drop_last()) + seq![','] + spec_decimal(items.last() as nat)
    }
}

fn push_decimal_list(out: &mut String, items: &Vec<usize>)
    ensures
        final(out)@ == old(out)@ + spec_decimal_list(items@),
{
    let ghost start = out@;
    let mut i: usize = 0;
    while i < items.len()
        invariant
            0 <= i <= items@.len(),
            out@ == start + spec_decimal_list(items@.take(i as int)),
        decreases items@.len() - i,
    {
        assert(items@.take(i as int + 1).drop_last() =~= items@.take(i as int));
        if i > 0 {
            push_char(out, ',');
        }
        push_decimal(out, items[i] as u64);
        assert(out@ =~= start + spec_decimal_list(items@.take(i as int + 1)));
        i = i + 1;
    }
    assert(items@.take(items@.len() as int) =~= items@);
}

/// A lower-case hexadecimal digit.
pub open spec fn spec_hex_digit(d: nat) -> char {
    if d < 10 {
        spec_digit(d)
    } else if d == 10 {
        'a'
    } else if d == 11 {
        'b'
    } else if d == 12 {
        'c'
    } else if d == 13 {
        'd'
    } else if d == 14 {
        'e'
    } else {
        'f'
    }
}

fn hex_digit(d: u32) -> (c: char)
    requires
        d < 16,
    ensures
        c == spec_hex_digit(d as nat),
{
    if d < 10 {
        digit(d as u64)
    } else if d == 10 {
        'a'
    } else if d == 11 {
        'b'
    } else if d == 12 {
        'c'
    } else if d == 13 {
        'd'
    } else if d == 14 {
        'e'
    } else {
        'f'
    }
}

/// How one character is written inside a JSON string: quote and backslash
/// escaped by a backslash, the control characters with a short escape where
/// JSON has one and as `\u00XX` otherwise, every other character as itself.
pub open spec fn spec_json_escape(c: char) -> Seq<char> {
    if c == '"' {
        seq!['\\', '"']
    } else if c == '\\' {
        seq!['\\', '\\']
    } else if c == '\u{8}' {
        seq!['\\', 'b']
    } else if c == '\t' {
        seq!['\\', 't']
    } else if c == '\n' {
        seq!['\\', 'n']
    } else if c == '\u{c}' {
        seq!['\\', 'f']
    } else if c == '\r' {
        seq!['\\', 'r']
    } else if (c as u32) < 0x20 {
        seq!['\\', 'u', '0', '0', spec_hex_digit((c as u32 / 16) as nat), spec_hex_digit((c as u32 % 16) as nat)]
    } else {
        seq![c]
    }
}

/// The escaped characters of a string, in order.
pub open spec fn spec_json_escaped(s: Seq<char>) -> Seq<char>
    decreases s.len(),
{
    if s.len() == 0 {
        Seq::empty()
    } else {
        spec_json_escaped(s.drop_last()) + spec_json_escape(s.last())
    }
}

/// A JSON string literal: the escaped characters between double quotes.
pub open spec fn spec_json_string(s: Seq<char>) -> Seq<char> {
    seq!['"'] + spec_json_escaped(s) + seq!['"']
}

fn push_json_escape(out: &mut String, c: char)
    ensures
        final(out)@ == old(out)@ + spec_json_escape(c),
{
    let ghost start = out@;
    if c == '"' {
        push_char(out, '\\');
        push_char(out, '"');
    } else if c == '\\' {
        push_char(out, '\\');
        push_char(out, '\\');
    } else if c == '\u{8}' {
        push_char(out, '\\');
        push_char(out, 'b');
    } else if c == '\t' {
        push_char(out, '\\');
        push_char(out, 't');
    } else if c == '\n' {
        push_char(out, '\\');
        push_char(out, 'n');
    } else if c == '\u{c}' {
        push_char(out, '\\');
        push_char(out, 'f');
    } else if c == '\r' {
        push_char(out, '\\');
        push_char(out, 'r');
    } else if (c as u32) < 0x20 {
        let code: u32 = c as u32;
        push_char(out, '\\');
        push_char(out, 'u');
        push_char(out, '0');
        push_char(out, '0');
        push_char(out, hex_digit(code / 16));
        push_char(out, hex_digit(code % 16));
    } else {
        push_char(out, c);
    }
    assert(out@ =~= start + spec_json_escape(c));
}

/// Appends `text` as a JSON string literal.
pub fn push_json_string(out: &mut String, text: &str)
    ensures
        final(out)@ == old(out)@ + spec_json_string(text@),
{
    let ghost start = out@;
    push_char(out, '"');
    let n = text.unicode_len();
    let mut i: usize = 0;
    while i < n
        invariant
            n == text@.len(),
            0 <= i <= n,
            out@ == start + seq!['"'] + spec_json_escaped(text@.take(i as int)),
        decreases n - i,
    {
        assert(text@.take(i as int + 1).drop_last() =~= text@.take(i as int));
        let c = text.get_char(i);
        push_json_escape(out, c);
        assert(out@ =~= start + seq!['"'] + spec_json_escaped(text@.take(i as int + 1)));
        i = i + 1;
    }
    assert(text@.take(n as int) =~= text@);
    push_char(out, '"');
    assert(out@ =~= start + spec_json_string(text@));
}

/// The string literals of `items`, separated by commas.
pub open spec fn spec_json_string_list(items: Seq<String>) -> Seq<char>
    decreases items.len(),
{
    if items.len() == 0 {
        Seq::empty()
    } else if items.len() == 1 {
        spec_json_string(items[0]@)
    } else {
        spec_json_string_list(items.drop_last()) + seq![','] + spec_json_string(items.last()@)
    }
}

fn push_json_string_list(out: &mut String, items: &Vec<String>)
    ensures
        final(out)@ == old(out)@ + spec_json_string_list(items@),
{
    let ghost start = out@;
    let mut i: usize = 0;
    while i < items.len()
        invariant
            0 <= i <= items@.len(),
            out@ == start + spec_json_string_list(items@.take(i as int)),
        decreases items@.len() - i,
    {
        assert(items@.take(i as int + 1).drop_last() =~= items@.take(i as int));
        if i > 0 {
            push_char(out, ',');
        }
        push_json_string(out, items[i].as_str());
        assert(out@ =~= start + spec_json_string_list(items@.take(i as int + 1)));
        i = i + 1;
    }
    assert(items@.take(items@.len() as int) =~= items@);
}

/// The `getSlot` request.
pub open spec fn spec_get_slot_request() -> Seq<char> {
    "{\"id\":1,\"jsonrpc\":\"2.0\",\"method\":\"getSlot\"}"@
}

/// The `getSlot` request: the cluster's current slot.
pub fn get_slot_request() -> (r: String)
    ensures
        r@ == spec_get_slot_request(),
{
    "{\"id\":1,\"jsonrpc\":\"2.0\",\"method\":\"getSlot\"}".to_owned()
}

/// The request that subscribes to slot notifications.
pub open spec fn spec_slot_subscribe_request() -> Seq<char> {
    "{ \"jsonrpc\": \"2.0\", \"id\": 1, \"method\": \"slotSubscribe\" }"@
}

/// The `slotSubscribe` request, sent once the subscription socket is open.
pub fn slot_subscribe_request() -> (r: String)
    ensures
        r@ == spec_slot_subscribe_request(),
{
    "{ \"jsonrpc\": \"2.0\", \"id\": 1, \"method\": \"slotSubscribe\" }".to_owned()
}

/// The `getBlockCommitment` request for a slot.
pub open spec fn spec_block_commitment_request(slot: u64) -> Seq<char> {
    "{\"id\":1,\"jsonrpc\":\"2.0\",\"method\":\"getBlockCommitment\",\"params\":["@ + spec_decimal(
        slot as nat,
    ) + "]}"@
}

/// The `getBlockCommitment` request: the stake that voted on `slot`.
pub fn block_commitment_request(slot: u64) -> (r: String)
    ensures
        r@ == spec_block_commitment_request(slot),
{
    let mut out = String::new();
    push_text(&mut out, "{\"id\":1,\"jsonrpc\":\"2.0\",\"method\":\"getBlockCommitment\",\"params\":[");
    push_decimal(&mut out, slot);
    push_text(&mut out, "]}");
    out
}

/// The `getShreds` request for some shreds of a slot.
pub open spec fn spec_shreds_request(slot: usize, indices: Seq<usize>) -> Seq<char> {
    "{\"id\":1,\"jsonrpc\":\"2.0\",\"method\":\"getShreds\",\"params\":["@ + spec_decimal(slot as nat)
        + ",["@ + spec_decimal_list(indices) + "],{\"commitment\":\"confirmed\"}]}"@
}

/// The `getShreds` request: the shreds of `slot` at `indices`, at confirmed
/// commitment.
pub fn shreds_request(slot: usize, indices: &Vec<usize>) -> (r: String)
    ensures
        r@ == spec_shreds_request(slot, indices@),
{
    let mut out = String::new();
    push_text(&mut out, "{\"id\":1,\"jsonrpc\":\"2.0\",\"method\":\"getShreds\",\"params\":[");
    push_decimal(&mut out, slot as u64);
    push_text(&mut out, ",[");
    push_decimal_list(&mut out, indices);
    push_text(&mut out, "],{\"commitment\":\"confirmed\"}]}");
    out
}

/// The `getVoteSignatures` request for a slot.
pub open spec fn spec_vote_signatures_request(slot: u64, vote_pubkeys: Seq<String>) -> Seq<char> {
    "{\"id\":1,\"jsonrpc\":\"2.0\",\"method\":\"getVoteSignatures\",\"params\":["@ + spec_decimal(
        slot as nat,
    ) + ",{\"commitment\":\"confirmed\",\"votePubkey\":["@ + spec_json_string_list(vote_pubkeys)
        + "]}]}"@
}

/// The `getVoteSignatures` request: the votes cast on `slot` by the given
/// vote accounts, at confirmed commitment.
pub fn vote_signatures_request(slot: u64, vote_pubkeys: &Vec<String>) -> (r: String)
    ensures
        r@ == spec_vote_signatures_request(slot, vote_pubkeys@),
{
    let mut out = String::new();
    push_text(&mut out, "{\"id\":1,\"jsonrpc\":\"2.0\",\"method\":\"getVoteSignatures\",\"params\":[");
    push_decimal(&mut out, slot);
    push_text(&mut out, ",{\"commitment\":\"confirmed\",\"votePubkey\":[");
    push_json_string_list(&mut out, vote_pubkeys);
    push_text(&mut out, "]}]}");
    out
}

/// Whether `pat` occurs in `s`.
pub open spec fn spec_contains(s: Seq<char>, pat: Seq<char>) -> bool {
    exists|k: int| 0 <= k && k + pat.len() <= s.len() && #[trigger] s.subrange(k, k + pat.len()) == pat
}

/// Whether `pat` occurs in `s` at position `k`.
pub open spec fn spec_occurs_at(s: Seq<char>, pat: Seq<char>, k: int) -> bool {
    0 <= k && k + pat.len() <= s.len() && s.subrange(k, k + pat.len()) == pat
}

/// `s` with each occurrence of `from` replaced by `to`, occurrences taken
/// from left to right without overlap.
pub open spec fn spec_replace(s: Seq<char>, from: Seq<char>, to: Seq<char>) -> Seq<char>
    recommends
        from.len() > 0,
    decreases s.len(),
{
    if s.len() == 0 || from.len() == 0 {
        s
    } else if spec_occurs_at(s, from, 0) {
        to + spec_replace(s.subrange(from.len() as int, s.len() as int), from, to)
    } else {
        seq![s[0]] + spec_replace(s.subrange(1, s.len() as int), from, to)
    }
}

fn chars_of(text: &str) -> (v: Vec<char>)
    ensures
        v@ == text@,
{
    let n = text.unicode_len();
    let mut v: Vec<char> = Vec::new();
    let mut i: usize = 0;
    while i < n
        invariant
            n == text@.len(),
            0 <= i <= n,
            v@ == text@.take(i as int),
        decreases n - i,
    {
        v.push(text.get_char(i));
        assert(v@ =~= text@.take(i as int + 1));
        i = i + 1;
    }
    assert(text@.take(n as int) =~= text@);
    v
}

fn occurs_at(s: &Vec<char>, pat: &Vec<char>, k: usize) -> (r: bool)
    ensures
        r == spec_occurs_at(s@, pat@, k as int),
{
    if k > s.len() || pat.len() > s.len() - k {
        return false;
    }
    let slen = s.len();
    let mut j: usize = 0;
    while j < pat.len()
        invariant
            slen == s@.len(),
            k + pat@.len() <= s@.len(),
            0 <= j <= pat@.len(),
            forall|m: int| 0 <= m < j ==> s@[k + m] == pat@[m],
        decreases pat@.len() - j,
    {
        if s[k + j] != pat[j] {
            assert(s@.subrange(k as int, k + pat@.len())[j as int] != pat@[j as int]);
            return false;
        }
        j = j + 1;
    }
    assert(s@.subrange(k as int, k + pat@.len()) =~= pat@);
    true
}

/// Whether `pat` occurs in `text`.
pub fn contains(text: &str, pat: &str) -> (r: bool)
    ensures
        r == spec_contains(text@, pat@),
{
    let s = chars_of(text);
    let p = chars_of(pat);
    let mut k: usize = 0;
    while k < s.len()
        invariant
            s@ == text@,
            p@ == pat@,
            0 <= k <= s@.len(),
            forall|m: int| 0 <= m < k ==> !spec_occurs_at(s@, p@, m),
        decreases s@.len() - k,
    {
        if occurs_at(&s, &p, k) {
            assert(spec_occurs_at(s@, p@, k as int));
            return true;
        }
        k = k + 1;
    }
    if occurs_at(&s, &p, k) {
        assert(spec_occurs_at(s@, p@, k as int));
        return true;
    }
    assert forall|m: int| 0 <= m && m + p@.len() <= s@.len() implies #[trigger] s@.subrange(
        m,
        m + p@.len(),
    ) != p@ by {
        assert(!spec_occurs_at(s@, p@, m));
    }
    false
}

/// Replaces each occurrence of `from` in `text` by `to`, from left to
/// right.
pub fn replace(text: &str, from: &str, to: &str) -> (r: String)
    requires
        from@.len() > 0,
    ensures
        r@ == spec_replace(text@, from@, to@),
{
    let s = chars_of(text);
    let f = chars_of(from);
    let mut out = String::new();
    let mut i: usize = 0;
    assert(s@.subrange(0, s@.len() as int) =~= s@);
    while i < s.len()
        invariant
            s@ == text@,
            f@ == from@,
            f@.len() > 0,
            0 <= i <= s@.len(),
            out@ + spec_replace(s@.subrange(i as int, s@.len() as int), f@, to@) == spec_replace(
                s@,
                f@,
                to@,
            ),
        decreases s@.len() - i,
    {
        let ghost rest = s@.subrange(i as int, s@.len() as int);
        let ghost before = out@;
        if occurs_at(&s, &f, i) {
            assert(rest.subrange(0, f@.len() as int) =~= s@.subrange(i as int, i + f@.len()));
            assert(rest.subrange(f@.len() as int, rest.len() as int) =~= s@.subrange(
                i + f@.len(),
                s@.len() as int,
            ));
            push_text(&mut out, to);
            assert(out@ + spec_replace(s@.subrange(i + f@.len(), s@.len() as int), f@, to@) =~= before
                + spec_replace(rest, f@, to@));
            i = i + f.len();
        } else {
            assert(!spec_occurs_at(rest, f@, 0)) by {
                if spec_occurs_at(rest, f@, 0) {
                    assert(rest.subrange(0, f@.len() as int) =~= s@.subrange(i as int, i + f@.len()));
                }
            }
            assert(rest.subrange(1, rest.len() as int) =~= s@.subrange(i + 1, s@.len() as int));
            push_char(&mut out, s[i]);
            assert(out@ + spec_replace(s@.subrange(i + 1, s@.len() as int), f@, to@) =~= before
                + spec_replace(rest, f@, to@));
            i = i + 1;
        }
    }
    assert(s@.subrange(s@.len() as int, s@.len() as int) =~= Seq::<char>::empty());
    out
}

/// The subscription address of an RPC node: for an `https` address the same
/// address with each `https://` turned into `wss://`; otherwise the local
/// validator's subscription socket.
pub open spec fn spec_websocket_url(rpc_url: Seq<char>) -> Seq<char> {
    if spec_contains(rpc_url, "https"@) {
        spec_replace(rpc_url, "https://"@, "wss://"@)
    } else {
        "ws://0.0.0.0:8900"@
    }
}

/// The subscription address that goes with an RPC address.
pub fn websocket_url(rpc_url: &str) -> (r: String)
    ensures
        r@ == spec_websocket_url(rpc_url@),
{
    if contains(rpc_url, "https") {
        proof {
            reveal_strlit("https://");
        }
        replace(rpc_url, "https://", "wss://")
    } else {
        "ws://0.0.0.0:8900".to_owned()
    }
}

} // verus!
