use bitcoin_node_manager::process::{
    after_stop_request, command_line, indexer_command, node_command, rpc_stop_policy,
    signal_stop_policy, AfterStopRequest, StopStep,
};
use bitcoin_node_manager::rpc::RpcError;

fn kill_time(exit_at: Option<u64>) -> (u64, StopStep) {
    let policy = signal_stop_policy();
    let mut t: u64 = 0;
    loop {
        let exited = exit_at.map_or(false, |e| t >= e);
        match policy.next_step(t, exited) {
            StopStep::Sleep(d) => t += d,
            step => return (t, step),
        }
    }
}

#[test]
fn ignored_signal_is_forced_after_grace() {
    let (t, step) = kill_time(None);
    assert_eq!(step, StopStep::Escalate);
    assert!(t >= 10_000 && t <= 10_200);
}

#[test]
fn exit_before_grace_finishes() {
    let (t, step) = kill_time(Some(1_000));
    assert_eq!(step, StopStep::Finished);
    assert_eq!(t, 1_000);
}

#[test]
fn stop_steps() {
    let p = signal_stop_policy();
    assert_eq!(p.next_step(9_999, false), StopStep::Sleep(200));
    assert_eq!(p.next_step(10_000, false), StopStep::Escalate);
    assert_eq!(p.next_step(10_000, true), StopStep::Escalate);
    let r = rpc_stop_policy();
    assert_eq!(r.next_step(59_999, false), StopStep::Sleep(500));
    assert_eq!(r.next_step(60_000, false), StopStep::Escalate);
    assert_eq!(r.next_step(3, true), StopStep::Finished);
}

#[test]
fn launch_commands() {
    assert_eq!(
        node_command("/ssd/Binaries", "/ssd/BitcoinChain"),
        vec!["/ssd/Binaries/bitcoind", "-datadir=/ssd/BitcoinChain", "-printtoconsole"]
    );
    let cmd = indexer_command("/b/", "/n", "/db");
    assert_eq!(
        cmd,
        vec![
            "/b/electrs",
            "--network",
            "bitcoin",
            "--daemon-dir",
            "/n",
            "--db-dir",
            "/db",
            "--electrum-rpc-addr",
            "127.0.0.1:50001"
        ]
    );
    assert_eq!(
        command_line(&node_command("/x", "/d")),
        "$ /x/bitcoind -datadir=/d -printtoconsole"
    );
}

#[test]
fn stop_request_follow_up() {
    assert!(matches!(
        after_stop_request(&Err(RpcError::Transport("refused".into()))),
        AfterStopRequest::SignalNow
    ));
    match after_stop_request(&Ok(())) {
        AfterStopRequest::WaitThenSignal(p) => assert_eq!((p.grace_ms, p.poll_ms), (60_000, 500)),
        other => panic!("unexpected {:?}", other),
    }
    assert!(matches!(
        after_stop_request(&Err(RpcError::AuthenticationFailed)),
        AfterStopRequest::WaitThenSignal(_)
    ));
}
