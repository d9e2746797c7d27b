use bitcoin_node_manager::updater::{
    finish_update, folder_version, indexer_binaries, latest_version, node_binaries, parse_semver,
    plan_update, report_component, BinaryCopy, CopyAction, CopyStage, UpdatePlan, UpdateResult,
};

fn names(list: &[&str]) -> Vec<String> {
    list.iter().map(|s| s.to_string()).collect()
}

#[test]
fn semver_parsing() {
    assert_eq!(parse_semver("27.0"), Some((27, 0, 0)));
    assert_eq!(parse_semver("0.10.5"), Some((0, 10, 5)));
    assert_eq!(parse_semver("1"), Some((1, 0, 0)));
    assert_eq!(parse_semver(""), None);
}

#[test]
fn semver_lenient_minor_and_patch() {
    assert_eq!(parse_semver("27.x.3"), Some((27, 0, 3)));
    assert_eq!(parse_semver("1.2.3.4"), Some((1, 2, 3)));
    assert_eq!(parse_semver("+4.1"), Some((4, 1, 0)));
    assert_eq!(parse_semver("v27.0"), None);
    assert_eq!(parse_semver("18446744073709551616"), None);
    assert_eq!(parse_semver("18446744073709551615.1"), Some((u64::MAX, 1, 0)));
}

#[test]
fn latest_version_selection() {
    let dirs = names(&["bitcoin-26.0", "bitcoin-27.1", "bitcoin-27.0"]);
    let latest = latest_version(&dirs, "bitcoin");
    assert_eq!(latest.as_deref(), Some("bitcoin-27.1"));
}

#[test]
fn folder_without_version_is_ignored() {
    let dirs = names(&["bitcoin", "bitcoin-", "bitcoinx-30.0", "electrs-0.10.5"]);
    assert_eq!(latest_version(&dirs, "bitcoin"), None);
    assert_eq!(latest_version(&dirs, "electrs").as_deref(), Some("electrs-0.10.5"));
    assert_eq!(folder_version("bitcoin", "bitcoin"), None);
    assert_eq!(folder_version("bitcoin-27.1", "bitcoin"), Some((27, 1, 0)));
}

#[test]
fn equal_versions_first_seen_wins() {
    let dirs = names(&["bitcoin-27", "bitcoin-27.0.0", "bitcoin-26.9"]);
    assert_eq!(latest_version(&dirs, "bitcoin").as_deref(), Some("bitcoin-27"));
}

fn run(copy: &mut BinaryCopy, outcomes: &[bool]) -> Vec<String> {
    let mut renamed_to = Vec::new();
    for &ok in outcomes {
        if let CopyAction::Rename(_, dst) = copy.action() {
            if ok {
                renamed_to.push(dst);
            }
        }
        copy.report(ok, "failed".to_string());
    }
    renamed_to
}

#[test]
fn copy_skips_missing_binary() {
    let mut copy = BinaryCopy::new("/src".to_string(), "/dst".to_string(), names(&["a", "b"]));
    match copy.action() {
        CopyAction::CreateDir(d) => assert_eq!(d, "/dst"),
        other => panic!("unexpected {:?}", other),
    }
    // create dir ok, "a" missing, "b" present: copy, chmod, rename all ok
    let renamed = run(&mut copy, &[true, false, true, true, true, true]);
    assert_eq!(copy.copied, vec!["b".to_string()]);
    assert!(copy.failures.is_empty());
    assert_eq!(renamed, vec!["/dst/b".to_string()]);
    assert!(matches!(copy.action(), CopyAction::Finished));
}

#[test]
fn copy_steps_use_temp_file() {
    let mut copy = BinaryCopy::new("/src/".to_string(), "/dst".to_string(), names(&["bitcoind"]));
    copy.report(true, String::new());
    match copy.action() {
        CopyAction::CheckSource(p) => assert_eq!(p, "/src/bitcoind"),
        other => panic!("unexpected {:?}", other),
    }
    copy.report(true, String::new());
    match copy.action() {
        CopyAction::CopyToTemp(a, b) => {
            assert_eq!(a, "/src/bitcoind");
            assert_eq!(b, "/dst/.bitcoind.tmp");
        }
        other => panic!("unexpected {:?}", other),
    }
    copy.report(true, String::new());
    match copy.action() {
        CopyAction::MakeExecutable(t) => assert_eq!(t, "/dst/.bitcoind.tmp"),
        other => panic!("unexpected {:?}", other),
    }
    copy.report(true, String::new());
    match copy.action() {
        CopyAction::Rename(a, b) => {
            assert_eq!(a, "/dst/.bitcoind.tmp");
            assert_eq!(b, "/dst/bitcoind");
        }
        other => panic!("unexpected {:?}", other),
    }
}

#[test]
fn interrupted_temp_write_never_renamed() {
    let mut copy = BinaryCopy::new("/s".to_string(), "/d".to_string(), names(&["x", "y"]));
    // dir ok; "x" exists; copy to temp fails; "y" exists; copy ok; chmod fails
    let renamed = run(&mut copy, &[true, true, false, true, true, false]);
    assert!(renamed.is_empty());
    assert!(copy.copied.is_empty());
    assert_eq!(copy.failures.len(), 2);
    assert_eq!(copy.stage, CopyStage::Done);
}

#[test]
fn failed_binary_does_not_stop_the_rest() {
    let mut copy = BinaryCopy::new("/s".to_string(), "/d".to_string(), names(&["x", "y"]));
    let renamed = run(&mut copy, &[true, true, true, true, false, true, true, true, true]);
    assert_eq!(renamed, vec!["/d/y".to_string()]);
    assert_eq!(copy.copied, vec!["y".to_string()]);
    assert_eq!(copy.failures, vec!["failed".to_string()]);
}

#[test]
fn failed_directory_creation_ends_copy() {
    let mut copy = BinaryCopy::new("/s".to_string(), "/d".to_string(), names(&["x"]));
    copy.report(false, "no space".to_string());
    assert!(matches!(copy.action(), CopyAction::Finished));
    assert_eq!(copy.failures, vec!["no space".to_string()]);
}

#[test]
fn plan_priority_order() {
    let none: Vec<String> = Vec::new();
    match plan_update(false, true, false, &none) {
        UpdatePlan::Finish(UpdateResult::BitForgeFound(p)) => {
            assert_eq!(p, "/Applications/BitForge.app")
        }
        other => panic!("unexpected {:?}", other),
    }
    assert!(matches!(
        plan_update(false, false, true, &none),
        UpdatePlan::Finish(UpdateResult::BitForgeNotFound)
    ));
    assert!(matches!(
        plan_update(true, true, false, &none),
        UpdatePlan::Finish(UpdateResult::BinariesSubfolderMissing)
    ));
    let junk = names(&["other", "bitcoin"]);
    assert!(matches!(
        plan_update(true, false, true, &junk),
        UpdatePlan::Finish(UpdateResult::NothingToUpdate)
    ));
    let dirs = names(&["electrs-0.10.5", "bitcoin-26.0", "bitcoin-27.1"]);
    match plan_update(true, false, true, &dirs) {
        UpdatePlan::Copy { node_folder, indexer_folder } => {
            assert_eq!(node_folder.as_deref(), Some("bitcoin-27.1"));
            assert_eq!(indexer_folder.as_deref(), Some("electrs-0.10.5"));
        }
        other => panic!("unexpected {:?}", other),
    }
}

#[test]
fn report_lines_and_outcome() {
    let mut copy = BinaryCopy::new("/s".to_string(), "/d".to_string(), node_binaries());
    // dir ok; bitcoind copied; bitcoin-cli missing; bitcoin-tx rename fails; bitcoin-util copied
    run(
        &mut copy,
        &[true, true, true, true, true, false, true, true, true, false, true, true, true, true],
    );
    let mut messages = Vec::new();
    report_component(&mut messages, "Bitcoin", "bitcoin-27.1", &copy);
    assert_eq!(
        messages,
        vec![
            "Bitcoin (bitcoin-27.1): bitcoind, bitcoin-util".to_string(),
            "Bitcoin update error: failed".to_string(),
        ]
    );
    match finish_update(&messages) {
        UpdateResult::Updated(t) => assert_eq!(
            t,
            "Bitcoin (bitcoin-27.1): bitcoind, bitcoin-util\nBitcoin update error: failed"
        ),
        other => panic!("unexpected {:?}", other),
    }
}

#[test]
fn nothing_copied_is_nothing_to_update() {
    let mut copy = BinaryCopy::new("/s".to_string(), "/d".to_string(), indexer_binaries());
    run(&mut copy, &[true, false]);
    let mut messages = Vec::new();
    report_component(&mut messages, "Electrs", "electrs-0.10.5", &copy);
    assert!(messages.is_empty());
    assert!(matches!(finish_update(&messages), UpdateResult::NothingToUpdate));
}
