use bitcoin_node_manager::rpc::BlockchainInfo;
use bitcoin_node_manager::sync::{is_electrs_synced_line, node_synced, PROGRESS_SCALE};

#[test]
fn node_sync_formula() {
    // progress 0.99995
    assert!(node_synced(800_000, 799_999, 999_950_000));
    // progress 0.5
    assert!(!node_synced(1000, 100, 500_000_000));
    assert!(!node_synced(0, 0, PROGRESS_SCALE));
    assert!(!node_synced(0, 5, PROGRESS_SCALE));
}

#[test]
fn node_sync_thresholds() {
    assert!(!node_synced(10, 10, 999_900_000));
    assert!(node_synced(10, 10, 999_900_001));
    assert!(!node_synced(10, 8, PROGRESS_SCALE));
    assert!(node_synced(10, 9, PROGRESS_SCALE));
    assert!(node_synced(1, 0, PROGRESS_SCALE));
}

#[test]
fn chain_snapshot_defaults() {
    let info = BlockchainInfo::from_fields(None, Some(7), None, None, None);
    assert_eq!(info.blocks, 0);
    assert_eq!(info.headers, 7);
    assert_eq!(info.verification_progress, 0);
    assert_eq!(info.chain, "");
    assert!(info.initial_block_download);
    assert!(!info.is_synced());
    let full = BlockchainInfo::from_fields(
        Some(800_000),
        Some(800_000),
        Some(PROGRESS_SCALE),
        Some("main".to_string()),
        Some(false),
    );
    assert!(full.is_synced());
    assert_eq!(full.chain, "main");
    assert!(!full.initial_block_download);
}

#[test]
fn indexer_sync_lines() {
    assert!(is_electrs_synced_line("[INFO] Electrs running on 127.0.0.1:50001"));
    assert!(is_electrs_synced_line("FINISHED FULL COMPACTION"));
    assert!(is_electrs_synced_line("waiting for new block hash"));
    assert!(is_electrs_synced_line("index update completed in 2s"));
    assert!(is_electrs_synced_line("chain best block: 00000000abc"));
    assert!(!is_electrs_synced_line("indexing 2000 blocks"));
    assert!(!is_electrs_synced_line(""));
    assert!(!is_electrs_synced_line("electrs  running"));
}
