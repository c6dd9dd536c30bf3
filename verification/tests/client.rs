use tinydancer::basic_client::{gen_random_indices as draw_values, RpcEndpoint, SampleServiceConfig};
use tinydancer::cli::{get_cluster, get_endpoint, ConfigSchema};
use tinydancer::consensus::{checked_voted_stake, voted_stake, GetCommittmentResponse, RpcBlockCommitment};
use tinydancer::primitives::{bytes_equal, bytes_less, Pubkey};
use tinydancer::rpc_wrapper::{
    identity_source, keypair_from_json, BatchAction, BatchEvent, BinaryEncoding, IdentitySource,
    SendTransactionConfig, TxBatch, TxStore, MAX_TX_RETRIES, NUMBER_OF_TX_SENDERS,
};
use tinydancer::sampler::ArchiveConfig;
use tinydancer::stats::{
    stat_rows, PerRequestSampleStats, PerRequestVerificationStats, SlotUpdateStats,
};
use tinydancer::tinydancer::{endpoint, ClientStatus, Cluster, MonitorService, TinyDancerConfig};
use tinydancer::ui::{App, StatefulList, TabsState};
use tinydancer::ui_text::{
    pad_right, panel_for_tab, sample_stat_item_lines, separator, slot_item_lines,
    verification_item_lines, SpanStyle, StyledText, TabPanel,
};

fn is_cluster(c: &Cluster, expected: &Cluster) -> bool {
    match (c, expected) {
        (Cluster::Mainnet, Cluster::Mainnet) => true,
        (Cluster::Devnet, Cluster::Devnet) => true,
        (Cluster::Localnet, Cluster::Localnet) => true,
        (Cluster::Custom(a), Cluster::Custom(b)) => a == b,
        _ => false,
    }
}

#[test]
fn cluster_endpoints() {
    assert_eq!(endpoint(Cluster::Mainnet), "https://api.mainnet-beta.solana.com");
    assert_eq!(endpoint(Cluster::Devnet), "https://api.devnet.solana.com");
    assert_eq!(endpoint(Cluster::Localnet), "http://0.0.0.0:8899");
    assert_eq!(endpoint(Cluster::Custom("http://x:1".to_string())), "http://x:1");
}

#[test]
fn configured_cluster_names() {
    assert!(is_cluster(&get_cluster("Mainnet".to_string()), &Cluster::Mainnet));
    assert!(is_cluster(&get_cluster("Devnet".to_string()), &Cluster::Devnet));
    assert!(is_cluster(&get_cluster("Localnet".to_string()), &Cluster::Localnet));
    assert!(is_cluster(
        &get_cluster("mainnet".to_string()),
        &Cluster::Custom("mainnet".to_string())
    ));
    for name in ["Mainnet", "Devnet", "Localnet", "http://h:9"] {
        assert_eq!(get_endpoint(name.to_string()), endpoint(get_cluster(name.to_string())));
    }
}

#[test]
fn config_overrides_replace_given_settings() {
    let c = ConfigSchema {
        log_path: "/tmp/a.log".to_string(),
        cluster: "Localnet".to_string(),
        validator_set_path: "/v".to_string(),
    };
    let c = c.apply_overrides(None, Some("Devnet".to_string()), None);
    assert_eq!(c.log_path, "/tmp/a.log");
    assert_eq!(c.cluster, "Devnet");
    assert_eq!(c.validator_set_path, "/v");
}

#[test]
fn client_status_rounds() {
    let mut s = ClientStatus::Initializing("x".to_string());
    assert!(s.enter_consensus_round());
    assert!(matches!(&s, ClientStatus::Active(m) if m == "Monitoring Tinydancer: Verifying consensus"));
    s.enter_sampling_round();
    assert!(matches!(&s, ClientStatus::Active(m) if m == "Monitoring Tinydancer: Actively Sampling Shreds"));
    s.socket_unreachable();
    assert!(matches!(&s, ClientStatus::Crashed(m) if m == "Client can't connect to socket"));
    assert!(!s.enter_consensus_round());
    s.enter_sampling_round();
    assert!(matches!(&s, ClientStatus::Crashed(_)));
}

fn config(consensus_mode: bool, ui: bool, tui: bool) -> TinyDancerConfig {
    TinyDancerConfig {
        rpc_endpoint: Cluster::Localnet,
        sample_qty: 10,
        enable_ui_service: ui,
        archive_config: ArchiveConfig { shred_archive_duration: 1, archive_path: "/tmp/a".to_string() },
        tui_monitor: tui,
        consensus_mode,
        log_path: "/tmp/l".to_string(),
    }
}

#[test]
fn startup_plan_follows_config() {
    let p = config(true, false, false).startup_plan();
    assert_eq!(p.monitor, MonitorService::Consensus);
    assert!(!p.run_ui);
    assert!(matches!(&p.status, ClientStatus::Initializing(m) if m == "Starting Up Tinydancer"));
    let p = config(false, false, true).startup_plan();
    assert_eq!(p.monitor, MonitorService::Sampler);
    assert!(p.run_ui);
    assert!(config(false, true, false).wants_ui_service());
}

#[test]
fn voted_stake_sums_depths() {
    let mut a = [0u64; 32];
    a[0] = 5;
    a[31] = 7;
    let c = RpcBlockCommitment { commitment: Some(a), total_stake: 100 };
    assert_eq!(voted_stake(&c), 12);
    assert_eq!(checked_voted_stake(&c), Some(12));
    let none: RpcBlockCommitment<[u64; 32]> = RpcBlockCommitment { commitment: None, total_stake: 9 };
    assert_eq!(voted_stake(&none), 0);
    let mut big = [0u64; 32];
    big[3] = u64::MAX;
    big[4] = 1;
    let c = RpcBlockCommitment { commitment: Some(big), total_stake: 1 };
    assert_eq!(checked_voted_stake(&c), None);
    let r = GetCommittmentResponse::default();
    assert_eq!(r.result.total_stake, 0);
}

#[test]
fn stats_records() {
    assert_eq!(SlotUpdateStats::new(9).slots, 9);
    let mut r = PerRequestSampleStats::default();
    r.update(4, 2, 3, vec![Some(1u8), None, Some(2)]);
    assert_eq!((r.slot, r.total_sampled, r.num_data_shreds, r.num_coding_shreds), (4, 3, 2, 3));
    let mut v = PerRequestVerificationStats { slot: 4, num_verified: 1, num_failed: 2 };
    v.add_assign(PerRequestVerificationStats { slot: 8, num_verified: 3, num_failed: 4 });
    assert_eq!((v.slot, v.num_verified, v.num_failed), (4, 4, 6));
    v.update(0, 1);
    assert_eq!((v.slot, v.num_verified, v.num_failed), (4, 0, 1));
    let rows = stat_rows(SlotUpdateStats::new(3), r, v);
    assert_eq!(rows.0, vec![3]);
    assert_eq!(rows.1, vec![(4, 3, 2, 3)]);
    assert_eq!(rows.2, vec![(4, 0, 1)]);
}

#[test]
fn tabs_move_and_wrap_left() {
    let mut t = TabsState::new(vec!["a".to_string(), "b".to_string(), "c".to_string()]);
    assert_eq!(t.index, 0);
    t.previous();
    assert_eq!(t.index, 2);
    t.next();
    assert_eq!(t.index, 3);
    t.previous();
    assert_eq!(t.index, 2);
}

#[test]
fn stateful_list_selection() {
    let mut l = StatefulList::with_items(vec![10, 20, 30]);
    assert_eq!(l.state.selected(), None);
    l.previous();
    assert_eq!(l.state.selected(), Some(0));
    l.previous();
    assert_eq!(l.state.selected(), Some(2));
    l.next();
    assert_eq!(l.state.selected(), Some(2));
    l.unselect();
    assert_eq!(l.state.selected(), None);
    l.on_tick();
    assert_eq!(l.items, vec![20, 30, 10]);
    l.on_tick();
    l.on_tick();
    assert_eq!(l.items, vec![10, 20, 30]);
}

#[test]
fn app_keys_and_ticks() {
    let mut app = App::new("t".to_string(), vec![1, 2], vec![(1, 2, 3, 4)], vec![(1, 1, 0)]);
    assert_eq!(app.tabs.titles, vec!["Sampler".to_string()]);
    assert_eq!(app.slot_list.title, "SLOTS");
    assert_eq!(app.per_request_sample_stat_list.title, "Request Stats");
    assert_eq!(app.verification_stats_list.title, "Verified Stats");
    assert!(app.should_quit);
    app.should_quit = false;
    app.on_key('x');
    assert!(!app.should_quit);
    app.on_key('q');
    assert!(app.should_quit);
    app.on_up();
    assert_eq!(app.slot_list.state.state.selected(), Some(0));
    app.on_down();
    assert_eq!(app.slot_list.state.state.selected(), Some(0));
    app.on_right();
    assert_eq!(app.tabs.index, 1);
    app.on_left();
    app.on_left();
    assert_eq!(app.tabs.index, 0);
    app.on_tick();
    assert_eq!(app.slot_list.state.items, vec![2, 1]);
}

#[test]
fn batch_sends_when_over_size() {
    let mut b = TxBatch::new();
    let a = b.on_event(1, BatchEvent::Received { signature: "s1".to_string(), tx: vec![1], slot: 1 });
    assert_eq!(a, BatchAction::Wait);
    let a = b.on_event(1, BatchEvent::Received { signature: "s2".to_string(), tx: vec![2], slot: 2 });
    assert_eq!(a, BatchAction::Send { permit_held: false });
    assert_eq!(b.len(), 2);
    let (sigs, txs) = b.into_parts();
    assert_eq!(sigs, vec![("s1".to_string(), 1), ("s2".to_string(), 2)]);
    assert_eq!(txs, vec![vec![1], vec![2]]);
}

#[test]
fn batch_timeouts() {
    let mut b = TxBatch::new();
    assert_eq!(b.on_event(5, BatchEvent::TimedOut { permit_acquired: false }), BatchAction::Wait);
    assert_eq!(b.on_event(5, BatchEvent::TimedOut { permit_acquired: true }), BatchAction::Discard);
    b.on_event(5, BatchEvent::Received { signature: "s".to_string(), tx: vec![], slot: 0 });
    assert_eq!(
        b.on_event(5, BatchEvent::TimedOut { permit_acquired: true }),
        BatchAction::Send { permit_held: true }
    );
    assert_eq!(b.on_event(5, BatchEvent::ChannelClosed), BatchAction::Stop);
    assert_eq!(b.len(), 1);
    assert_eq!(NUMBER_OF_TX_SENDERS, 5);
}

#[test]
fn unconfirmed_transactions_are_sent_again_until_confirmed() {
    let mut store = TxStore::new();
    store.record_sent("s1".to_string(), vec![1], 10);
    store.record_sent("s2".to_string(), vec![2], 11);
    assert_eq!(store.take_retries(), vec![vec![1], vec![2]]);
    assert!(store.confirm(&"s1".to_string()));
    assert!(!store.confirm(&"unknown".to_string()));
    assert_eq!(store.take_retries(), vec![vec![2]]);
    assert!(store.confirm(&"s2".to_string()));
    assert!(store.take_retries().is_empty());
}

#[test]
fn retries_stop_at_the_cap() {
    let mut store = TxStore::new();
    store.record_sent("s".to_string(), vec![7], 1);
    for _ in 0..MAX_TX_RETRIES {
        assert_eq!(store.take_retries(), vec![vec![7]]);
    }
    assert!(store.take_retries().is_empty());
    // recording the signature afresh starts its count again
    store.record_sent("s".to_string(), vec![8], 2);
    assert_eq!(store.take_retries(), vec![vec![8]]);
    assert_eq!(MAX_TX_RETRIES, u16::MAX);
}

fn json_bytes(bytes: &[u8]) -> String {
    let items: Vec<String> = bytes.iter().map(|b| b.to_string()).collect();
    format!("[{}]", items.join(","))
}

#[test]
fn keypair_reads_from_json_byte_array() {
    let sdk = solana_sdk::signature::Keypair::new();
    let text = json_bytes(&sdk.to_bytes());
    let kp = keypair_from_json(&text).unwrap();
    assert_eq!(kp.to_bytes(), sdk.to_bytes());
    assert!(keypair_from_json("not json").is_none());
    assert!(keypair_from_json("[1,2,3]").is_none());
    assert!(keypair_from_json("[256]").is_none());
}

#[test]
fn identity_source_prefers_the_variable() {
    let text = json_bytes(&[7, 8, 9]);
    match identity_source(Some(text), "id.json".to_string()) {
        IdentitySource::Bytes(b) => assert_eq!(b, vec![7, 8, 9]),
        other => panic!("expected bytes, got {:?}", other),
    }
    match identity_source(Some("/keys/id.json".to_string()), "other.json".to_string()) {
        IdentitySource::File(p) => assert_eq!(p, "/keys/id.json"),
        other => panic!("expected a file, got {:?}", other),
    }
    match identity_source(None, String::new()) {
        IdentitySource::Fresh => {}
        other => panic!("expected a fresh keypair, got {:?}", other),
    }
    match identity_source(None, "id.json".to_string()) {
        IdentitySource::File(p) => assert_eq!(p, "id.json"),
        other => panic!("expected a file, got {:?}", other),
    }
}

#[test]
fn send_transaction_defaults() {
    let c = SendTransactionConfig::default();
    assert_eq!(c.encoding, BinaryEncoding::Base58);
    assert_eq!(c.max_retries, None);
}

#[test]
fn basic_sampler_draws_requested_count() {
    assert_eq!(draw_values(20, 5).len(), 5);
    assert_eq!(draw_values(3, 3).len(), 3);
    assert!(draw_values(0, 0).is_empty());
    let c = SampleServiceConfig { rpc_endpoint: RpcEndpoint::Devnet };
    assert_eq!(c.rpc_endpoint, RpcEndpoint::Devnet);
}

#[test]
fn byte_comparisons() {
    assert!(bytes_equal(&[1, 2], &[1, 2]));
    assert!(!bytes_equal(&[1, 2], &[1]));
    assert!(bytes_less(&[1, 2, 3], &[1, 3, 0]));
    assert!(!bytes_less(&[1, 3, 0], &[1, 2, 3]));
    assert!(!bytes_less(&[4, 4], &[4, 4]));
    assert!(Pubkey([1; 32]).equals(&Pubkey([1; 32])));
}

fn texts(lines: &[Vec<StyledText>]) -> Vec<Vec<String>> {
    lines.iter().map(|l| l.iter().map(|t| t.text.clone()).collect()).collect()
}

#[test]
fn monitor_item_text() {
    assert_eq!(texts(&slot_item_lines(42)), vec![vec!["Slot".to_string()], vec!["42".to_string()]]);
    assert_eq!(slot_item_lines(42)[0][0].style, SpanStyle::SlotHeading);
    assert_eq!(separator(4), "----");
    assert_eq!(separator(0), "");
    assert_eq!(pad_right("Slot: ", 8), format!("{:<8}", "Slot: "));
    assert_eq!(pad_right("TotalSampled:", 8), format!("{:<8}", "TotalSampled:"));
    let lines = sample_stat_item_lines((7, 11, 6, 5), 3);
    let expected: Vec<Vec<String>> = vec![
        vec!["---".to_string()],
        vec![format!("{:<8}", "Slot: "), " ".to_string(), "7".to_string()],
        vec![format!("{:<8}", "TotalSampled:"), " ".to_string(), "11".to_string()],
        vec![format!("{:<8}", "DataShreds:"), " ".to_string(), "6".to_string()],
        vec![format!("{:<8}", "CodingShreds:"), " ".to_string(), "5".to_string()],
        vec!["---".to_string()],
    ];
    assert_eq!(texts(&lines), expected);
    assert_eq!(lines[1][0].style, SpanStyle::Label);
    assert_eq!(lines[1][2].style, SpanStyle::Value);
    let v = verification_item_lines((7, 9, 1), 2);
    assert_eq!(
        texts(&v)[2],
        vec![format!("{:<8}", "Successfully Verified: "), " ".to_string(), "9".to_string()]
    );
    assert_eq!(texts(&v)[3][0], "Failed: ");
    assert_eq!(panel_for_tab(0), TabPanel::SamplerLists);
    assert_eq!(panel_for_tab(1), TabPanel::Empty);
}
