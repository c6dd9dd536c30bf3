use solana_sdk::instruction::Instruction;
use solana_sdk::message::Message;
use solana_sdk::signer::Signer;
use tinydancer::primitives::Signature;
use tinydancer::transaction_service::{
    check_votes, decode_vote_messages, parse_vote_signatures, vote_program_id, VoteErrorKind,
};

fn message_for(payer: &solana_sdk::pubkey::Pubkey, program: solana_sdk::pubkey::Pubkey) -> Message {
    let ix = Instruction::new_with_bytes(program, &[1, 2, 3], vec![]);
    Message::new(&[ix], Some(payer))
}

fn signed_vote(kp: &solana_sdk::signature::Keypair) -> (String, Vec<u8>) {
    let msg = message_for(&kp.pubkey(), solana_sdk::vote::program::id());
    let sig = kp.sign_message(&msg.serialize());
    (sig.to_string(), bincode::serialize(&msg).unwrap())
}

#[test]
fn vote_program_address() {
    assert_eq!(vote_program_id().0, solana_sdk::vote::program::id().to_bytes());
}

#[test]
fn signatures_that_do_not_decode_are_dropped() {
    let kp = solana_sdk::signature::Keypair::new();
    let s1 = kp.sign_message(b"one");
    let s2 = kp.sign_message(b"two");
    let texts = vec![s1.to_string(), "garbage!".to_string(), s2.to_string(), "11".to_string()];
    let sigs = parse_vote_signatures(&texts);
    assert_eq!(sigs.len(), 2);
    let b1: [u8; 64] = s1.into();
    let b2: [u8; 64] = s2.into();
    assert_eq!(sigs[0].0, b1);
    assert_eq!(sigs[1].0, b2);
}

#[test]
fn vote_messages_decode_or_fail_together() {
    let kp = solana_sdk::signature::Keypair::new();
    let (_, raw) = signed_vote(&kp);
    let msgs = decode_vote_messages(&vec![raw.clone()]).unwrap();
    assert_eq!(msgs.len(), 1);
    assert_eq!(msgs[0].account_keys[0].0, kp.pubkey().to_bytes());
    assert_eq!(msgs[0].bytes, raw);
    assert!(decode_vote_messages(&vec![raw, vec![1, 2]]).is_none());
}

#[test]
fn trusted_vote_with_valid_signature_is_verified() {
    let kp = solana_sdk::signature::Keypair::new();
    let other = solana_sdk::signature::Keypair::new();
    let (sig, raw) = signed_vote(&kp);
    let sigs = parse_vote_signatures(&vec![sig]);
    let msgs = decode_vote_messages(&vec![raw]).unwrap();
    let set = vec![(other.pubkey().to_string(), 5u64), (kp.pubkey().to_string(), 10u64)];
    let report = check_votes(&set, &sigs, &msgs);
    assert!(report.error.is_none());
    assert_eq!(report.votes.len(), 1);
    assert_eq!(report.votes[0].validator.0, kp.pubkey().to_bytes());
    assert_eq!(report.votes[0].index, 0);
    assert!(report.votes[0].valid);
}

#[test]
fn invalid_signature_is_reported_not_valid() {
    let kp = solana_sdk::signature::Keypair::new();
    let (_, raw) = signed_vote(&kp);
    let wrong = Signature(kp.sign_message(b"something else").into());
    let msgs = decode_vote_messages(&vec![raw]).unwrap();
    let set = vec![(kp.pubkey().to_string(), 10u64)];
    let report = check_votes(&set, &vec![wrong], &msgs);
    assert!(report.error.is_none());
    assert_eq!(report.votes.len(), 1);
    assert_eq!(report.votes[0].validator.0, kp.pubkey().to_bytes());
    assert!(!report.votes[0].valid);
}

#[test]
fn untrusted_signer_stops_the_check() {
    let kp = solana_sdk::signature::Keypair::new();
    let (sig, raw) = signed_vote(&kp);
    let sigs = parse_vote_signatures(&vec![sig]);
    let msgs = decode_vote_messages(&vec![raw]).unwrap();
    let report = check_votes(&vec![], &sigs, &msgs);
    assert!(report.votes.is_empty());
    let err = report.error.unwrap();
    assert_eq!(err.kind, VoteErrorKind::UntrustedValidator);
    assert_eq!(err.index, 0);
}

#[test]
fn non_vote_transaction_stops_the_check() {
    let kp = solana_sdk::signature::Keypair::new();
    let (good_sig, good_raw) = signed_vote(&kp);
    let msg = message_for(&kp.pubkey(), solana_sdk::system_program::id());
    let sig = kp.sign_message(&msg.serialize()).to_string();
    let raw = bincode::serialize(&msg).unwrap();
    let sigs = parse_vote_signatures(&vec![good_sig, sig]);
    let msgs = decode_vote_messages(&vec![good_raw, raw]).unwrap();
    let set = vec![(kp.pubkey().to_string(), 1u64)];
    let report = check_votes(&set, &sigs, &msgs);
    // the verdict on the first pair is kept with the error on the second
    assert_eq!(report.votes.len(), 1);
    assert_eq!(report.votes[0].index, 0);
    assert!(report.votes[0].valid);
    let err = report.error.unwrap();
    assert_eq!(err.kind, VoteErrorKind::NotAVoteTransaction);
    assert_eq!(err.index, 1);
}

#[test]
fn pairs_stop_at_the_shorter_list() {
    let kp = solana_sdk::signature::Keypair::new();
    let (sig, raw) = signed_vote(&kp);
    let sigs = parse_vote_signatures(&vec![sig.clone(), sig]);
    let msgs = decode_vote_messages(&vec![raw]).unwrap();
    let set = vec![(kp.pubkey().to_string(), 1u64)];
    assert_eq!(check_votes(&set, &sigs, &msgs).votes.len(), 1);
    let none = check_votes(&set, &vec![], &msgs);
    assert!(none.votes.is_empty() && none.error.is_none());
}
