use bitcoin_node_manager::config::Config;
use bitcoin_node_manager::display::format_height;
use bitcoin_node_manager::rpc::BlockchainInfo;
use bitcoin_node_manager::supervisor::{Daemon, LaunchDecision, Supervisor, DISPLAY_LINES};

#[test]
fn indexer_before_node_is_refused() {
    let s = Supervisor::new();
    assert_eq!(s.launch_decision(Daemon::Indexer), LaunchDecision::NodeNotRunning);
    assert_eq!(s.launch_decision(Daemon::Node), LaunchDecision::Proceed);
}

#[test]
fn launch_sequence() {
    let mut s = Supervisor::new();
    s.launched(Daemon::Node);
    assert_eq!(s.launch_decision(Daemon::Node), LaunchDecision::AlreadyRunning);
    assert_eq!(s.launch_decision(Daemon::Indexer), LaunchDecision::Proceed);
    s.launched(Daemon::Indexer);
    assert_eq!(s.launch_decision(Daemon::Indexer), LaunchDecision::AlreadyRunning);
    assert!(s.should_poll_chain());
}

#[test]
fn indexer_sync_flag_is_sticky() {
    let mut s = Supervisor::new();
    s.launched(Daemon::Node);
    s.launched(Daemon::Indexer);
    s.absorb_output(vec![], vec!["starting".into(), "Electrs running".into()]);
    assert!(s.indexer_synced);
    s.absorb_output(vec![], vec!["indexing".into()]);
    assert!(s.indexer_synced);
    assert!(s.exited(Daemon::Indexer));
    assert!(!s.indexer_synced);
    assert!(!s.exited(Daemon::Indexer));
}

#[test]
fn node_exit_resets_chain_state() {
    let mut s = Supervisor::new();
    s.launched(Daemon::Node);
    s.launched(Daemon::Indexer);
    s.absorb_output(vec![], vec!["chain best block".into()]);
    s.chain_info(&BlockchainInfo::from_fields(
        Some(800_000),
        Some(800_000),
        Some(1_000_000_000),
        None,
        None,
    ));
    assert!(s.node_synced);
    assert_eq!(s.block_height, 800_000);
    assert!(s.exited(Daemon::Node));
    assert!(!s.node_running && !s.node_synced);
    assert_eq!(s.block_height, 0);
    assert!(s.indexer_running);
    assert!(s.indexer_synced);
}

#[test]
fn node_sync_can_regress() {
    let mut s = Supervisor::new();
    s.launched(Daemon::Node);
    s.chain_info(&BlockchainInfo::from_fields(Some(10), Some(10), Some(1_000_000_000), None, None));
    assert!(s.node_synced);
    s.chain_info(&BlockchainInfo::from_fields(Some(10), Some(20), Some(1_000_000_000), None, None));
    assert!(!s.node_synced);
}

#[test]
fn display_log_keeps_recent_lines() {
    let mut s = Supervisor::new();
    let lines: Vec<String> = (0..DISPLAY_LINES + 3).map(|i| i.to_string()).collect();
    s.absorb_output(lines, vec![]);
    assert_eq!(s.node_log.len(), DISPLAY_LINES);
    assert_eq!(s.node_log.line(0), "3");
    s.absorb_output(vec!["new".into()], vec![]);
    assert_eq!(s.node_log.line(DISPLAY_LINES - 1), "new");
    assert_eq!(s.node_log.line(0), "4");
}

#[test]
fn shutdown_order() {
    let mut s = Supervisor::new();
    assert!(!s.stop_node());
    s.launched(Daemon::Node);
    s.launched(Daemon::Indexer);
    s.stop_indexer();
    assert!(!s.indexer_running);
    assert!(s.stop_node());
    assert!(!s.node_running);
    assert!(!s.should_poll_chain());
}

#[test]
fn config_defaults_and_edits() {
    let c = Config::defaults("/Volumes/SSD");
    assert_eq!(c.binaries_path, "/Volumes/SSD/Binaries");
    assert_eq!(c.bitcoin_data_path, "/Volumes/SSD/BitcoinChain");
    assert_eq!(c.electrs_data_path, "/Volumes/SSD/ElectrsDB");
    let r = Config::defaults("/");
    assert_eq!(r.binaries_path, "/Binaries");
    let e = Config::from_edits("  /b ", "/n\n", "\t/e").unwrap();
    assert_eq!((e.binaries_path.as_str(), e.bitcoin_data_path.as_str(), e.electrs_data_path.as_str()), ("/b", "/n", "/e"));
    assert!(Config::from_edits("/b", "   ", "/e").is_none());
}

#[test]
fn block_height_grouping() {
    assert_eq!(format_height(895_234), "895,234");
    assert_eq!(format_height(0), "0");
    assert_eq!(format_height(999), "999");
    assert_eq!(format_height(1_000), "1,000");
    assert_eq!(format_height(12_345_678), "12,345,678");
    assert_eq!(format_height(u64::MAX), "18,446,744,073,709,551,615");
}
