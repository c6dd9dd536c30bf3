use serde_json::Value;
use tinydancer::json_rpc::{
    block_commitment_request, contains, get_slot_request, push_decimal, push_json_string,
    push_text, replace, shreds_request, slot_subscribe_request, vote_signatures_request,
    websocket_url,
};

fn object(pairs: Vec<(&str, Value)>) -> Value {
    Value::Object(pairs.into_iter().map(|(k, v)| (k.to_string(), v)).collect())
}

fn request(method: &str, params: Option<Value>) -> String {
    let mut pairs = vec![
        ("jsonrpc", Value::from("2.0")),
        ("id", Value::from(1)),
        ("method", Value::from(method)),
    ];
    if let Some(p) = params {
        pairs.push(("params", p));
    }
    object(pairs).to_string()
}

fn confirmed() -> Value {
    object(vec![("commitment", Value::from("confirmed"))])
}

#[test]
fn get_slot_request_text() {
    assert_eq!(get_slot_request(), request("getSlot", None));
    assert_eq!(get_slot_request(), r#"{"id":1,"jsonrpc":"2.0","method":"getSlot"}"#);
}

#[test]
fn block_commitment_request_text() {
    let expected = request("getBlockCommitment", Some(Value::Array(vec![Value::from(1963754u64)])));
    assert_eq!(block_commitment_request(1963754), expected);
    assert_eq!(
        block_commitment_request(0),
        r#"{"id":1,"jsonrpc":"2.0","method":"getBlockCommitment","params":[0]}"#
    );
    assert!(block_commitment_request(u64::MAX).contains("18446744073709551615"));
}

#[test]
fn shreds_request_text() {
    let indices = vec![0usize, 17, 4, 0];
    let params = Value::Array(vec![
        Value::from(42usize),
        Value::Array(indices.iter().map(|i| Value::from(*i)).collect()),
        confirmed(),
    ]);
    assert_eq!(shreds_request(42, &indices), request("getShreds", Some(params)));
    let empty = Value::Array(vec![Value::from(5usize), Value::Array(vec![]), confirmed()]);
    assert_eq!(shreds_request(5, &vec![]), request("getShreds", Some(empty)));
}

#[test]
fn vote_signatures_request_text() {
    let keys = vec![
        "Vote111111111111111111111111111111111111111".to_string(),
        "we\"ird\\key\n\u{1}".to_string(),
    ];
    let opts = object(vec![
        ("commitment", Value::from("confirmed")),
        ("votePubkey", Value::Array(keys.iter().map(|k| Value::from(k.as_str())).collect())),
    ]);
    let params = Value::Array(vec![Value::from(77u64), opts]);
    assert_eq!(vote_signatures_request(77, &keys), request("getVoteSignatures", Some(params)));
}

#[test]
fn json_string_escapes_like_serde_json() {
    let samples = ["plain", "quote\"back\\slash", "\u{8}\t\n\u{c}\r", "\u{0}\u{1f}\u{7f}é€"];
    for s in samples {
        let mut out = String::new();
        push_json_string(&mut out, s);
        assert_eq!(out, serde_json::to_string(s).unwrap());
    }
}

#[test]
fn decimal_numerals() {
    for n in [0u64, 7, 10, 99, 100, 1234567890, u64::MAX] {
        let mut out = String::from("x");
        push_decimal(&mut out, n);
        assert_eq!(out, format!("x{}", n));
    }
    let mut out = String::from("ab");
    push_text(&mut out, "cé");
    assert_eq!(out, "abcé");
}

#[test]
fn slot_subscribe_request_text() {
    assert_eq!(
        slot_subscribe_request(),
        r#"{ "jsonrpc": "2.0", "id": 1, "method": "slotSubscribe" }"#
    );
}

#[test]
fn websocket_for_https_endpoints() {
    assert_eq!(websocket_url("https://api.mainnet-beta.solana.com"), "wss://api.mainnet-beta.solana.com");
    assert_eq!(websocket_url("https://api.devnet.solana.com"), "wss://api.devnet.solana.com");
    assert_eq!(websocket_url("http://0.0.0.0:8899"), "ws://0.0.0.0:8900");
    assert_eq!(websocket_url("http://my.https.host"), "http://my.https.host");
    assert_eq!(websocket_url("https://a/https://b"), "wss://a/wss://b");
}

#[test]
fn contains_and_replace_match_std() {
    let cases = [("abcabc", "bc", "X"), ("aaaa", "aa", "b"), ("", "a", "b"), ("xyz", "q", "r")];
    for (s, from, to) in cases {
        assert_eq!(contains(s, from), s.contains(from));
        assert_eq!(replace(s, from, to), s.replace(from, to));
    }
    assert!(contains("abc", ""));
}
