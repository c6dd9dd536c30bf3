use solana_sdk::signer::Signer;
use tinydancer::gossip::contact_info::{ContactInfo, SocketAddr};
use tinydancer::gossip::crds::{
    overrides, sanitize_wallclock, Crds, CrdsData, CrdsError, CrdsValue, CrdsValueLabel,
    CrdsVersion, Cursor, MAX_WALLCLOCK,
};
use tinydancer::gossip::incomplete_slots::{CompressionType, EpochIncompleteSlots};
use tinydancer::gossip::node::Node;
use tinydancer::gossip::node_shreds::{NodeShreds, ShredId, ShredType};
use tinydancer::gossip::ping_pong::{Ping, Pong};
use tinydancer::gossip::protocol::{sanitize_and_verify, CrdsFilter, Protocol, PruneData};
use tinydancer::gossip::version::Version;
use tinydancer::primitives::{Keypair, Pubkey, SanitizeError, Signature};
use tinydancer::wire::Wire;

fn keypair_pair() -> (solana_sdk::signature::Keypair, Keypair) {
    let sdk = solana_sdk::signature::Keypair::new();
    let ours = Keypair::from_bytes(&sdk.to_bytes()).expect("sdk keypair bytes are accepted");
    (sdk, ours)
}

fn addr(last: u8, port: u16) -> SocketAddr {
    SocketAddr::V4([127, 0, 0, last], port)
}

fn contact(id: Pubkey, wallclock: u64) -> ContactInfo {
    ContactInfo {
        id,
        repair: addr(1, 8001),
        gossip: addr(2, 8002),
        rpc: addr(3, 8899),
        rpc_pubsub: addr(4, 8900),
        serve_repair: addr(5, 8005),
        wallclock,
        shred_version: 7,
    }
}

fn wire_of<T: Wire>(t: &T) -> Vec<u8> {
    let mut out = Vec::new();
    t.write_wire(&mut out);
    out
}

#[test]
fn keypair_matches_sdk_keypair() {
    let (sdk, ours) = keypair_pair();
    assert_eq!(ours.pubkey().0, sdk.pubkey().to_bytes());
    assert_eq!(ours.to_bytes(), sdk.to_bytes());
    let sig = ours.sign_message(b"hello");
    let sdk_sig: [u8; 64] = sdk.sign_message(b"hello").into();
    assert_eq!(sig.0, sdk_sig);
    assert!(sig.verify(&ours.pubkey().0, b"hello"));
    assert!(!sig.verify(&ours.pubkey().0, b"hellp"));
}

#[test]
fn keypair_from_bytes_refuses_mismatched_halves() {
    let (_, a) = keypair_pair();
    let (_, b) = keypair_pair();
    let mut bytes = a.to_bytes().to_vec();
    bytes[32..].copy_from_slice(&b.to_bytes()[32..]);
    assert!(Keypair::from_bytes(&bytes).is_none());
    assert!(Keypair::from_bytes(&a.to_bytes()[..63]).is_none());
}

#[test]
fn fresh_keypair_signs_verifiably() {
    let kp = Keypair::new();
    let sig = kp.sign_message(b"abc");
    assert!(sig.verify(&kp.pubkey().0, b"abc"));
}

#[test]
fn ping_wire_matches_bincode_layout() {
    let (sdk, ours) = keypair_pair();
    let token = [69u8; 32];
    let ping = Ping::new(token, &ours);
    let expected = bincode::serialize(&(
        sdk.pubkey(),
        token,
        sdk.sign_message(&bincode::serialize(&token).unwrap()),
    ))
    .unwrap();
    assert_eq!(wire_of(&ping), expected);
    assert!(ping.verify());
    assert_eq!(ping.signable_data(), token.to_vec());
}

#[test]
fn tampered_ping_fails_verification() {
    let (_, ours) = keypair_pair();
    let mut ping = Ping::new([1u8; 32], &ours);
    ping.token[0] = 2;
    assert!(!ping.verify());
    let sig = ping.get_signature();
    ping.token[0] = 1;
    ping.set_signature(sig);
    assert!(ping.verify());
}

#[test]
fn pong_answers_ping_with_hashed_token() {
    let (sdk, ours) = keypair_pair();
    let token = [7u8; 32];
    let ping = Ping::new(token, &ours);
    let pong = Pong::new(&ping, &ours);
    let expected_hash = solana_sdk::hash::hashv(&[b"SOLANA_PING_PONG", &token]);
    assert_eq!(pong.hash.0, expected_hash.to_bytes());
    assert_eq!(pong.from().0, sdk.pubkey().to_bytes());
    assert!(pong.verify());
    assert_eq!(pong.signable_data(), expected_hash.to_bytes().to_vec());
}

#[test]
fn random_ping_verifies() {
    let (_, ours) = keypair_pair();
    let mut rng = <rand::rngs::StdRng as rand::SeedableRng>::seed_from_u64(5);
    let ping = Ping::new_rand(&mut rng, &ours);
    assert!(ping.verify());
    assert_eq!(ping.pubkey().0, ours.pubkey().0);
}

#[test]
fn signed_contact_info_verifies() {
    let (_, ours) = keypair_pair();
    let value = CrdsValue::new_signed(CrdsData::ContactInfo(contact(ours.pubkey(), 10)), &ours);
    assert!(value.verify());
    assert_eq!(value.wallclock(), 10);
    assert_eq!(value.pubkey().0, ours.pubkey().0);
    assert!(value.contact_info().is_some());
    assert_eq!(value.sanitize(), Ok(()));
    let (_, other) = keypair_pair();
    let forged = CrdsValue::new_signed(CrdsData::ContactInfo(contact(ours.pubkey(), 10)), &other);
    assert!(!forged.verify());
}

#[test]
fn unsigned_value_has_zero_signature() {
    let (_, ours) = keypair_pair();
    let value = CrdsValue::new_unsigned(CrdsData::ContactInfo(contact(ours.pubkey(), 3)));
    assert_eq!(value.get_signature().0, [0u8; 64]);
    assert!(!value.verify());
}

#[test]
fn contact_info_wallclock_bound() {
    assert_eq!(sanitize_wallclock(MAX_WALLCLOCK - 1), Ok(()));
    assert_eq!(sanitize_wallclock(MAX_WALLCLOCK), Err(SanitizeError::ValueOutOfBounds));
    let (_, ours) = keypair_pair();
    let value = CrdsValue::new_unsigned(CrdsData::ContactInfo(contact(ours.pubkey(), MAX_WALLCLOCK)));
    assert_eq!(value.sanitize(), Err(SanitizeError::ValueOutOfBounds));
}

#[test]
fn value_size_is_wire_length() {
    let (_, ours) = keypair_pair();
    let value = CrdsValue::new_signed(CrdsData::ContactInfo(contact(ours.pubkey(), 1)), &ours);
    assert_eq!(value.size() as usize, wire_of(&value).len());
    // signature, variant tag, key, five v4 addresses (4 + 4 + 2 bytes each), wallclock, shred version
    assert_eq!(value.size(), 64 + 4 + 32 + 5 * 10 + 8 + 2);
}

#[test]
fn socket_addr_wire_layout() {
    // variant index, octets, port: the layout bincode gives a socket address
    let mut v4 = 0u32.to_le_bytes().to_vec();
    v4.extend_from_slice(&[127, 0, 0, 2]);
    v4.extend_from_slice(&8002u16.to_le_bytes());
    assert_eq!(wire_of(&addr(2, 8002)), v4);
    let mut ip = [0u8; 16];
    ip[15] = 1;
    let mut v6 = 1u32.to_le_bytes().to_vec();
    v6.extend_from_slice(&ip);
    v6.extend_from_slice(&9u16.to_le_bytes());
    assert_eq!(wire_of(&SocketAddr::V6(ip, 9)), v6);
}

#[test]
fn label_keys_distinguish_kinds() {
    let (_, ours) = keypair_pair();
    let pk = ours.pubkey();
    assert_eq!(CrdsValueLabel::ContactInfo(pk).key(), (0u8, pk.0));
    assert_eq!(CrdsValueLabel::NodeShreds(pk).key(), (1u8, pk.0));
    assert_eq!(CrdsValueLabel::NodeShreds(pk).pubkey().0, pk.0);
}

#[test]
fn crds_first_write_is_accepted() {
    let (_, ours) = keypair_pair();
    let mut crds = Crds::default();
    assert_eq!(crds.len(), 0);
    let value = CrdsValue::new_signed(CrdsData::ContactInfo(contact(ours.pubkey(), 5)), &ours);
    assert_eq!(crds.insert(value, 100), Ok(()));
    assert_eq!(crds.len(), 1);
    let held = crds.get(&CrdsValueLabel::ContactInfo(ours.pubkey())).expect("held");
    assert_eq!(held.ordinal, 0);
    assert_eq!(held.local_timestamp, 100);
    assert_eq!(held.value.wallclock(), 5);
    let expected_hash = solana_sdk::blake3::hash(&wire_of(&held.value));
    assert_eq!(held.value_hash.0, expected_hash.to_bytes());
    assert!(crds.get(&CrdsValueLabel::NodeShreds(ours.pubkey())).is_none());
}

#[test]
fn crds_later_wallclock_wins_earlier_is_refused() {
    let (_, ours) = keypair_pair();
    let mut crds = Crds::default();
    let label = CrdsValueLabel::ContactInfo(ours.pubkey());
    let v5 = CrdsValue::new_signed(CrdsData::ContactInfo(contact(ours.pubkey(), 5)), &ours);
    let v9 = CrdsValue::new_signed(CrdsData::ContactInfo(contact(ours.pubkey(), 9)), &ours);
    let v7 = CrdsValue::new_signed(CrdsData::ContactInfo(contact(ours.pubkey(), 7)), &ours);
    assert_eq!(crds.insert(v5, 1), Ok(()));
    assert_eq!(crds.insert(v9.clone(), 2), Ok(()));
    let held = crds.get(&label).unwrap();
    assert_eq!(held.value.wallclock(), 9);
    assert_eq!(held.ordinal, 1);
    assert_eq!(crds.insert(v7, 3), Err(CrdsError::InsertFailed));
    let held = crds.get(&label).unwrap();
    assert_eq!(held.value.wallclock(), 9);
    assert_eq!(held.local_timestamp, 2);
    assert_eq!(crds.insert(v9, 4), Err(CrdsError::InsertFailed));
    assert_eq!(crds.len(), 1);
}

#[test]
fn crds_keeps_labels_apart() {
    let (_, a) = keypair_pair();
    let (_, b) = keypair_pair();
    let mut crds = Crds::default();
    let va = CrdsValue::new_signed(CrdsData::ContactInfo(contact(a.pubkey(), 5)), &a);
    let vb = CrdsValue::new_signed(CrdsData::ContactInfo(contact(b.pubkey(), 6)), &b);
    let shreds = NodeShreds::new(vec![ShredId(3, 1, ShredType::Data)], a.pubkey());
    let vs = CrdsValue::new_signed(CrdsData::NodeShreds(shreds), &a);
    assert_eq!(crds.insert(va, 1), Ok(()));
    assert_eq!(crds.insert(vb, 1), Ok(()));
    assert_eq!(crds.insert(vs, 1), Ok(()));
    assert_eq!(crds.len(), 3);
    assert_eq!(crds.get(&CrdsValueLabel::ContactInfo(a.pubkey())).unwrap().ordinal, 0);
    assert_eq!(crds.get(&CrdsValueLabel::ContactInfo(b.pubkey())).unwrap().ordinal, 1);
    assert_eq!(crds.get(&CrdsValueLabel::NodeShreds(a.pubkey())).unwrap().ordinal, 2);
}

#[test]
fn equal_wallclocks_are_decided_by_hash() {
    let (_, ours) = keypair_pair();
    let mut x = contact(ours.pubkey(), 5);
    let mut y = contact(ours.pubkey(), 5);
    x.shred_version = 1;
    y.shred_version = 2;
    let vx = CrdsValue::new_signed(CrdsData::ContactInfo(x), &ours);
    let vy = CrdsValue::new_signed(CrdsData::ContactInfo(y), &ours);
    let hx = solana_sdk::blake3::hash(&wire_of(&vx)).to_bytes();
    let hy = solana_sdk::blake3::hash(&wire_of(&vy)).to_bytes();
    let mut crds = Crds::default();
    assert_eq!(crds.insert(vx.clone(), 1), Ok(()));
    let held = crds.get(&CrdsValueLabel::ContactInfo(ours.pubkey())).unwrap().clone();
    assert_eq!(overrides(&vy, &held), hx < hy);
    assert!(!overrides(&vx, &held));
    let r = crds.insert(vy, 2);
    assert_eq!(r.is_ok(), hx < hy);
}

#[test]
fn cursor_consume_moves_past_ordinal() {
    let mut c = Cursor(3);
    assert_eq!(c.ordinal(), 3);
    c.consume(10);
    assert_eq!(c.ordinal(), 11);
    c.consume(2);
    assert_eq!(c.ordinal(), 11);
}

#[test]
fn node_shreds_groups_by_slot() {
    let (_, ours) = keypair_pair();
    let ids = vec![ShredId(9, 2, ShredType::Code), ShredId(9, 4, ShredType::Data)];
    let ns = NodeShreds::new(ids.clone(), ours.pubkey());
    assert_eq!(ns.shred_table.len(), 1);
    assert_eq!(ns.shreds_for(9).unwrap(), &ids);
    assert!(ns.shreds_for(8).is_none());
    assert_eq!(ns.sanitize(), Ok(()));
    assert_eq!(ShredType::Data.to_byte(), 0b1010_0101);
    assert_eq!(ShredType::Code.to_byte(), 0b0101_1010);
    // map length, slot, vector length, then each id: slot, index, type byte
    let mut expected = Vec::new();
    expected.extend_from_slice(&1u64.to_le_bytes());
    expected.extend_from_slice(&9u64.to_le_bytes());
    expected.extend_from_slice(&2u64.to_le_bytes());
    for (slot, index, byte) in [(9u64, 2u32, 0b0101_1010u8), (9, 4, 0b1010_0101)] {
        expected.extend_from_slice(&slot.to_le_bytes());
        expected.extend_from_slice(&index.to_le_bytes());
        expected.push(byte);
    }
    let w = wire_of(&ns);
    assert_eq!(&w[..expected.len()], &expected[..]);
    assert_eq!(&w[expected.len() + 8..], &ours.pubkey().0[..]);
}

#[test]
fn version_defaults_and_sanitizes() {
    let v = Version::default();
    assert_eq!((v.major, v.minor, v.patch, v.commit, v.feature_set), (0, 0, 0, None, 0));
    assert_eq!(v.sanitize(), Ok(()));
    let (_, ours) = keypair_pair();
    let cv = CrdsVersion::new(ours.pubkey());
    assert_eq!(cv.from.0, ours.pubkey().0);
    assert_eq!(cv.sanitize(), Ok(()));
}

#[test]
fn prune_data_signature_covers_fields() {
    let (sdk, ours) = keypair_pair();
    let mut prune = PruneData {
        pubkey: ours.pubkey(),
        prunes: vec![Pubkey([1u8; 32]), Pubkey([2u8; 32])],
        signature: Signature([0u8; 64]),
        destination: Pubkey([3u8; 32]),
        wallclock: 42,
    };
    let expected = bincode::serialize(&(
        sdk.pubkey(),
        vec![[1u8; 32], [2u8; 32]],
        [3u8; 32],
        42u64,
    ))
    .unwrap();
    assert_eq!(prune.signable_data(), expected);
    assert!(!prune.verify());
    let sig = ours.sign_message(&prune.signable_data());
    prune.set_signature(sig);
    assert!(prune.verify());
    let mut resigned = prune.clone();
    resigned.sign(&ours);
    assert_eq!(resigned.get_signature().0, sig.0);
    let (_, other) = keypair_pair();
    resigned.sign(&other);
    assert!(!resigned.verify());
    assert_eq!(prune.sanitize(), Ok(()));
    prune.wallclock = MAX_WALLCLOCK;
    assert_eq!(prune.sanitize(), Err(SanitizeError::ValueOutOfBounds));
}

#[test]
fn protocol_ping_message_is_tagged() {
    let (_, ours) = keypair_pair();
    let ping = Ping::new([9u8; 32], &ours);
    let bytes = Protocol::PingMessage(ping).serialize();
    assert_eq!(&bytes[..4], &4u32.to_le_bytes());
    assert_eq!(&bytes[4..], &wire_of(&ping)[..]);
}

#[test]
fn push_message_keeps_only_verified_values() {
    let (_, a) = keypair_pair();
    let good = CrdsValue::new_signed(CrdsData::ContactInfo(contact(a.pubkey(), 1)), &a);
    let bad = CrdsValue::new_unsigned(CrdsData::ContactInfo(contact(a.pubkey(), 2)));
    let msg = Protocol::PushMessage(a.pubkey(), vec![bad.clone(), good.clone()]);
    match msg.par_verify() {
        Some(Protocol::PushMessage(_, kept)) => {
            assert_eq!(kept.len(), 1);
            assert_eq!(kept[0].wallclock(), 1);
        }
        _ => panic!("expected the verified value to be kept"),
    }
    let all_bad = Protocol::PushMessage(a.pubkey(), vec![bad]);
    assert!(all_bad.par_verify().is_none());
}

#[test]
fn sanitize_and_verify_rejects_out_of_range_values() {
    let (_, a) = keypair_pair();
    let late = CrdsValue::new_signed(CrdsData::ContactInfo(contact(a.pubkey(), MAX_WALLCLOCK)), &a);
    let msg = Protocol::PullResponse(a.pubkey(), vec![late]);
    assert_eq!(msg.sanitize(), Err(SanitizeError::ValueOutOfBounds));
    assert!(sanitize_and_verify(msg).is_none());
    let ok = CrdsValue::new_signed(CrdsData::ContactInfo(contact(a.pubkey(), 3)), &a);
    let pull = Protocol::PullRequest(CrdsFilter { filter: CrdsValueLabel::ContactInfo(a.pubkey()) }, ok);
    assert!(sanitize_and_verify(pull).is_some());
}

#[test]
fn pong_message_verification() {
    let (_, a) = keypair_pair();
    let ping = Ping::new([4u8; 32], &a);
    let pong = Pong::new(&ping, &a);
    assert!(Protocol::PongMessage(pong).par_verify().is_some());
    let mut forged = pong;
    forged.hash.0[0] ^= 1;
    assert!(Protocol::PongMessage(forged).par_verify().is_none());
}

#[test]
fn incomplete_slots_default() {
    let e = EpochIncompleteSlots::default();
    assert_eq!(e.first, 0);
    assert_eq!(e.compression, CompressionType::Uncompressed);
    assert!(e.compressed_list.is_empty());
    assert_eq!(CompressionType::default(), CompressionType::Uncompressed);
}

#[test]
fn node_keeps_its_peers() {
    let n = Node::new(vec![addr(1, 1), addr(2, 2)]);
    assert_eq!(n.gossip_nodes.len(), 2);
}

fn reserialize(bytes: &[u8]) -> Option<Vec<u8>> {
    Protocol::deserialize(bytes).map(|p| p.serialize())
}

#[test]
fn ping_message_reads_back() {
    let (sdk, ours) = keypair_pair();
    let ping = Ping::new([3u8; 32], &ours);
    let bytes = Protocol::PingMessage(ping).serialize();
    assert_eq!(reserialize(&bytes), Some(bytes.clone()));
    match Protocol::deserialize(&bytes) {
        Some(Protocol::PingMessage(p)) => {
            assert_eq!(p.from.0, sdk.pubkey().to_bytes());
            assert_eq!(p.token, [3u8; 32]);
            assert!(p.verify());
        }
        _ => panic!("expected a ping"),
    }
}

#[test]
fn bincode_ping_is_read() {
    let sdk = solana_sdk::signature::Keypair::new();
    let token = [8u8; 32];
    let signature = sdk.sign_message(&token);
    let bytes = bincode::serialize(&(4u32, sdk.pubkey(), token, signature)).unwrap();
    match Protocol::deserialize(&bytes) {
        Some(Protocol::PingMessage(p)) => {
            assert_eq!(p.from.0, sdk.pubkey().to_bytes());
            assert!(p.verify());
        }
        _ => panic!("expected a ping"),
    }
}

#[test]
fn push_message_reads_back() {
    let (_, a) = keypair_pair();
    let ci = CrdsValue::new_signed(CrdsData::ContactInfo(contact(a.pubkey(), 11)), &a);
    let ns = NodeShreds::new(vec![ShredId(4, 1, ShredType::Code), ShredId(4, 2, ShredType::Data)], a.pubkey());
    let sv = CrdsValue::new_signed(CrdsData::NodeShreds(ns), &a);
    let msg = Protocol::PushMessage(a.pubkey(), vec![ci, sv]);
    let bytes = msg.serialize();
    assert_eq!(reserialize(&bytes), Some(bytes.clone()));
    match Protocol::deserialize(&bytes) {
        Some(Protocol::PushMessage(from, values)) => {
            assert_eq!(from.0, a.pubkey().0);
            assert_eq!(values.len(), 2);
            assert!(values.iter().all(|v| v.verify()));
            assert_eq!(values[0].wallclock(), 11);
        }
        _ => panic!("expected a push message"),
    }
}

#[test]
fn prune_and_pull_messages_read_back() {
    let (_, a) = keypair_pair();
    let mut prune = PruneData {
        pubkey: a.pubkey(),
        prunes: vec![Pubkey([5u8; 32])],
        signature: Signature([0u8; 64]),
        destination: Pubkey([6u8; 32]),
        wallclock: 9,
    };
    prune.sign(&a);
    let bytes = Protocol::PruneMessage(a.pubkey(), prune).serialize();
    assert_eq!(reserialize(&bytes), Some(bytes.clone()));
    let value = CrdsValue::new_signed(CrdsData::ContactInfo(contact(a.pubkey(), 2)), &a);
    let pull = Protocol::PullRequest(CrdsFilter { filter: CrdsValueLabel::NodeShreds(a.pubkey()) }, value);
    let bytes = pull.serialize();
    assert_eq!(reserialize(&bytes), Some(bytes.clone()));
    let pong = Pong::new(&Ping::new([1u8; 32], &a), &a);
    let bytes = Protocol::PongMessage(pong).serialize();
    assert_eq!(reserialize(&bytes), Some(bytes));
}

#[test]
fn malformed_packets_are_refused() {
    let (_, a) = keypair_pair();
    let bytes = Protocol::PingMessage(Ping::new([3u8; 32], &a)).serialize();
    assert!(Protocol::deserialize(&bytes[..bytes.len() - 1]).is_none());
    let mut longer = bytes.clone();
    longer.push(0);
    assert!(Protocol::deserialize(&longer).is_none());
    let mut bad_tag = bytes.clone();
    bad_tag[0] = 6;
    assert!(Protocol::deserialize(&bad_tag).is_none());
    assert!(Protocol::deserialize(&[]).is_none());
    // a received packet of 32 bytes holds no complete message
    assert!(Protocol::deserialize(&bytes[..32]).is_none());
}

#[test]
fn shred_records_read_in_any_slot_order() {
    let (_, a) = keypair_pair();
    let table = vec![
        (3u64, vec![ShredId(3, 0, ShredType::Data)]),
        (7u64, vec![ShredId(7, 1, ShredType::Code)]),
    ];
    let ns = NodeShreds { shred_table: table, wallclock: 5, node_pubkey: a.pubkey() };
    let value = CrdsValue::new_signed(CrdsData::NodeShreds(ns), &a);
    let bytes = Protocol::PushMessage(a.pubkey(), vec![value]).serialize();
    assert_eq!(reserialize(&bytes), Some(bytes.clone()));
    // swap the two entries: slot 7 first, then slot 3; a map walked in
    // another order is encoded so, and it reads all the same
    let header = 4 + 32 + 8 + 64 + 4 + 8;
    let entry = 8 + 8 + 13;
    let mut swapped = bytes.clone();
    swapped[header..header + entry].copy_from_slice(&bytes[header + entry..header + 2 * entry]);
    swapped[header + entry..header + 2 * entry].copy_from_slice(&bytes[header..header + entry]);
    assert_eq!(reserialize(&swapped), Some(swapped.clone()));
    match Protocol::deserialize(&swapped) {
        Some(Protocol::PushMessage(_, values)) => match &values[0].data {
            CrdsData::NodeShreds(ns) => {
                assert_eq!(ns.shred_table[0].0, 7);
                assert_eq!(ns.shred_table[1].0, 3);
                assert_eq!(ns.shreds_for(3).unwrap(), &vec![ShredId(3, 0, ShredType::Data)]);
                assert_eq!(ns.shreds_for(7).unwrap(), &vec![ShredId(7, 1, ShredType::Code)]);
            }
            _ => panic!("expected a shred record"),
        },
        _ => panic!("expected a push message"),
    }
    // an unknown shred type byte is refused
    let mut bad_type = bytes.clone();
    bad_type[header + entry - 1] = 0;
    assert!(Protocol::deserialize(&bad_type).is_none());
}

#[test]
fn shred_record_slot_listed_twice_keeps_last_listing() {
    let (_, a) = keypair_pair();
    let table = vec![
        (4u64, vec![ShredId(4, 0, ShredType::Data)]),
        (4u64, vec![ShredId(4, 9, ShredType::Code)]),
    ];
    let ns = NodeShreds { shred_table: table, wallclock: 5, node_pubkey: a.pubkey() };
    assert_eq!(ns.shreds_for(4).unwrap(), &vec![ShredId(4, 9, ShredType::Code)]);
}
