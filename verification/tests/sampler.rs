use solana_sdk::signer::Signer;
use tinydancer::gossip::node_shreds::{ShredId, ShredType};
use tinydancer::sampler::{
    all_samples_verified, archive_key, dedup_received, gen_random_indices, parse_leader,
    probe_shred_kind, sample_indices_for_slot, tally_samples, try_coerce_shred, verify_sample,
    CoercedShred, GetShredResult, RpcShred, SamplingError, SlotSubscribeParams,
    SlotSubscribeResponse, SlotSubscribeResult, SAMPLES_PER_SLOT, SHRED_CF,
};

fn rpc(data: Option<u8>, code: Option<u16>) -> Option<RpcShred<u8, u16>> {
    Some(RpcShred { shred_data: data, shred_code: code })
}

#[test]
fn random_indices_stay_below_bound() {
    let v = gen_random_indices(7, 50);
    assert_eq!(v.len(), 50);
    assert!(v.iter().all(|i| *i < 7));
    assert!(gen_random_indices(0, 0).is_empty());
    assert_eq!(gen_random_indices(1, 3), vec![0, 0, 0]);
}

#[test]
fn slot_sample_ends_with_first_shred() {
    let v = sample_indices_for_slot(32);
    assert_eq!(v.len(), SAMPLES_PER_SLOT + 1);
    assert_eq!(SAMPLES_PER_SLOT, 10);
    assert_eq!(*v.last().unwrap(), 0);
    assert!(v.iter().all(|i| *i < 32));
}

#[test]
fn archive_column_family_name() {
    assert_eq!(SHRED_CF, "archived_shreds");
}

#[test]
fn coerce_shred_needs_exactly_one_form() {
    assert!(matches!(try_coerce_shred(rpc(Some(1), None)), Some(CoercedShred::Data(1))));
    assert!(matches!(try_coerce_shred(rpc(None, Some(2))), Some(CoercedShred::Code(2))));
    assert!(try_coerce_shred(rpc(Some(1), Some(2))).is_none());
    assert!(try_coerce_shred(rpc(None, None)).is_none());
    assert!(try_coerce_shred::<u8, u16>(None).is_none());
}

#[test]
fn probe_reads_second_entry() {
    assert_eq!(probe_shred_kind(&vec![None, rpc(Some(1), Some(2))]), Ok(ShredType::Data));
    assert_eq!(probe_shred_kind(&vec![None, rpc(None, Some(2))]), Ok(ShredType::Code));
    assert_eq!(
        probe_shred_kind(&vec![rpc(Some(1), None), None]),
        Err(SamplingError::FirstShredNotFound)
    );
    assert_eq!(
        probe_shred_kind(&vec![None, rpc(None, None)]),
        Err(SamplingError::NeitherDataNorCode)
    );
}

#[test]
fn sampling_error_messages() {
    assert_eq!(SamplingError::FirstShredNotFound.message(), "first shred not found");
    assert_eq!(SamplingError::NeitherDataNorCode.message(), "shred isnt either data or code type");
    assert_eq!(SamplingError::InvalidLeader.message(), "invalid leader public key");
}

#[test]
fn leader_is_decoded_from_base58() {
    let kp = solana_sdk::signature::Keypair::new();
    let result: GetShredResult<u8, u16> =
        GetShredResult { leader: kp.pubkey().to_string(), shreds: vec![] };
    assert_eq!(parse_leader(&result).unwrap().0, kp.pubkey().to_bytes());
    let bad: GetShredResult<u8, u16> = GetShredResult { leader: "not-a-key".to_string(), shreds: vec![] };
    assert_eq!(parse_leader(&bad).unwrap_err(), SamplingError::InvalidLeader);
    let short: GetShredResult<u8, u16> = GetShredResult { leader: "1111".to_string(), shreds: vec![] };
    assert_eq!(parse_leader(&short).unwrap_err(), SamplingError::InvalidLeader);
}

fn id(index: u32) -> Option<ShredId> {
    Some(ShredId(5, index, ShredType::Data))
}

#[test]
fn dedup_removes_adjacent_repeats_only() {
    let received = vec![id(1), id(1), None, None, id(2), id(1), id(1)];
    assert_eq!(dedup_received(&received), vec![id(1), None, id(2), id(1)]);
    let again = dedup_received(&dedup_received(&received));
    assert_eq!(again, vec![id(1), None, id(2), id(1)]);
    assert!(dedup_received(&vec![]).is_empty());
}

#[test]
fn tally_counts_requested_indices() {
    let received = vec![id(3), id(3), id(4), None, id(9)];
    let requested = vec![3usize, 9, 0];
    let t = tally_samples(&received, &requested);
    assert_eq!(t.received, received);
    assert_eq!(t.fulfilled, 3);
    assert!(!t.is_incomplete(&requested));
    let short = tally_samples(&vec![id(3), id(4), None], &requested);
    assert_eq!(short.fulfilled, 1);
    assert!(short.is_incomplete(&requested));
    let full = tally_samples(&vec![id(3), id(9), id(0)], &requested);
    assert_eq!(full.fulfilled, 3);
    assert!(!full.is_incomplete(&requested));
}

#[test]
fn archive_key_hashes_slot_type_index() {
    let key = archive_key(1963754, ShredType::Data, 0);
    let expected = solana_sdk::hash::hashv(&[
        &1963754u64.to_le_bytes(),
        &0b1010_0101u8.to_le_bytes(),
        &0u32.to_le_bytes(),
    ]);
    assert_eq!(key.0, expected.to_bytes());
    let code_key = archive_key(1963754, ShredType::Code, 11);
    let expected_code = solana_sdk::hash::hashv(&[
        &1963754u64.to_le_bytes(),
        &[0b0101_1010u8],
        &11u32.to_le_bytes(),
    ]);
    assert_eq!(code_key.0, expected_code.to_bytes());
    assert_ne!(key.0, code_key.0);
}

#[test]
fn sample_needs_signature_and_proof() {
    assert!(verify_sample(true, Some(Ok(true))));
    assert!(!verify_sample(false, Some(Ok(true))));
    assert!(!verify_sample(true, Some(Ok(false))));
}

#[test]
fn slot_passes_when_present_samples_verify() {
    assert!(all_samples_verified(&vec![Some(true), None, Some(true)]));
    assert!(!all_samples_verified(&vec![Some(true), Some(false), None]));
    assert!(all_samples_verified(&vec![]));
}

#[test]
fn root_slot_of_notification() {
    let r = SlotSubscribeResponse {
        jsonrpc: "2.0".to_string(),
        method: "slotNotification".to_string(),
        params: SlotSubscribeParams {
            result: SlotSubscribeResult { parent: 9, root: 7, slot: 10 },
            subscription: 0,
        },
    };
    assert_eq!(r.root_slot(), 7);
    let mut neg = r.clone();
    neg.params.result.root = -1;
    assert_eq!(neg.root_slot(), u64::MAX);
}
