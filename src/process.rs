//! What the supervisor decides about a daemon process: the command that
//! starts it, the line that records that command, and when a stop that is
//! waited for escalates.

use crate::rpc::RpcError;
use crate::text::{join_path, join_path_str, join_strings, joined, string_views};
use vstd::prelude::*;
use vstd::string::StringExecFns;

verus! {

/// How long a stop is waited for before it escalates, and how often the
/// process is looked at meanwhile, in milliseconds.
#[derive(Clone, Copy, Debug)]
pub struct StopPolicy {
    pub grace_ms: u64,
    pub poll_ms: u64,
}

/// The next thing to do while waiting for a process to stop.
#[derive(Clone, Copy, PartialEq, Eq, Structural, Debug)]
pub enum StopStep {
    /// The grace period is over: escalate (force the stop).
    Escalate,
    /// The process has exited: nothing more to do.
    Finished,
    /// Look again after this many milliseconds.
    Sleep(u64),
}

/// The step for a wait that began `elapsed` milliseconds ago. The deadline
/// is checked before the process is.
pub open spec fn stop_step_spec(p: StopPolicy, elapsed: int, exited: bool) -> StopStep {
    if elapsed >= p.grace_ms {
        StopStep::Escalate
    } else if exited {
        StopStep::Finished
    } else {
        StopStep::Sleep(p.poll_ms)
    }
}

/// A signal stop: 10 s of grace after the termination signal, looked at
/// every 200 ms, then a forced kill.
pub fn signal_stop_policy() -> (r: StopPolicy)
    ensures
        r.grace_ms == 10_000,
        r.poll_ms == 200,
{
    StopPolicy { grace_ms: 10_000, poll_ms: 200 }
}

/// A stop that the node acknowledged over RPC: up to 60 s to flush its
/// state, looked at every 500 ms, then the signal stop.
pub fn rpc_stop_policy() -> (r: StopPolicy)
    ensures
        r.grace_ms == 60_000,
        r.poll_ms == 500,
{
    StopPolicy { grace_ms: 60_000, poll_ms: 500 }
}

impl StopPolicy {
    /// What to do `elapsed_ms` after the stop was requested, given whether
    /// the process has exited.
    pub fn next_step(&self, elapsed_ms: u64, exited: bool) -> (r: StopStep)
        ensures
            r == stop_step_spec(*self, elapsed_ms as int, exited),
    {
        if elapsed_ms >= self.grace_ms {
            StopStep::Escalate
        } else if exited {
            StopStep::Finished
        } else {
            StopStep::Sleep(self.poll_ms)
        }
    }
}

/// A process that ignores the stop is forced no earlier than the grace
/// period, and no later than one poll interval after it: every step before
/// the deadline sleeps exactly one interval and wakes before the deadline
/// plus that interval, and every look at or after the deadline forces the
/// stop. With the signal policy that is between 10 s and 10.2 s.
pub proof fn lemma_escalation_window(p: StopPolicy, elapsed: int, exited: bool)
    requires
        elapsed >= 0,
    ensures
        stop_step_spec(p, elapsed, exited) == StopStep::Escalate <==> elapsed >= p.grace_ms,
        stop_step_spec(p, elapsed, false) matches StopStep::Sleep(d) ==> d == p.poll_ms && elapsed
            + d < p.grace_ms + p.poll_ms,
        exited && elapsed < p.grace_ms ==> stop_step_spec(p, elapsed, exited)
            == StopStep::Finished,
{
}

/// What follows a request to the node to stop over RPC.
#[derive(Clone, Copy, Debug)]
pub enum AfterStopRequest {
    /// The node could not be reached: stop it by signal now.
    SignalNow,
    /// Give it time to flush and exit, waiting by this policy, then stop it
    /// by signal if it still runs.
    WaitThenSignal(StopPolicy),
}

/// Only a request that could not be delivered falls back to the signal at
/// once; otherwise the node gets the RPC stop's grace period first.
pub fn after_stop_request(reply: &Result<(), RpcError>) -> (r: AfterStopRequest)
    ensures
        (reply matches Err(RpcError::Transport(_))) ==> r is SignalNow,
        !(reply matches Err(RpcError::Transport(_))) ==> (r matches AfterStopRequest::WaitThenSignal(
            p,
        ) && p.grace_ms == 60_000 && p.poll_ms == 500),
{
    match reply {
        Err(RpcError::Transport(_)) => AfterStopRequest::SignalNow,
        _ => AfterStopRequest::WaitThenSignal(rpc_stop_policy()),
    }
}

/// The node's command: its binary, its data directory, and console output.
pub open spec fn node_command_spec(binaries: Seq<char>, data_dir: Seq<char>) -> Seq<Seq<char>> {
    seq![join_path(binaries, "bitcoind"@), "-datadir="@ + data_dir, "-printtoconsole"@]
}

/// The indexer's command: its binary, the network, the node's data
/// directory, its own database directory, and its listening address.
pub open spec fn indexer_command_spec(
    binaries: Seq<char>,
    node_data_dir: Seq<char>,
    db_dir: Seq<char>,
) -> Seq<Seq<char>> {
    seq![
        join_path(binaries, "electrs"@),
        "--network"@,
        "bitcoin"@,
        "--daemon-dir"@,
        node_data_dir,
        "--db-dir"@,
        db_dir,
        "--electrum-rpc-addr"@,
        "127.0.0.1:50001"@,
    ]
}

/// The command (program, then arguments) that starts the node.
pub fn node_command(binaries_path: &str, data_dir: &str) -> (r: Vec<String>)
    ensures
        string_views(r@) == node_command_spec(binaries_path@, data_dir@),
{
    proof {
        reveal_strlit("bitcoind");
    }
    let program = join_path_str(binaries_path, "bitcoind");
    let mut datadir = "-datadir=".to_owned();
    datadir.append(data_dir);
    let r = vec![program, datadir, "-printtoconsole".to_owned()];
    assert(string_views(r@) =~= node_command_spec(binaries_path@, data_dir@));
    r
}

/// The command (program, then arguments) that starts the indexer.
pub fn indexer_command(binaries_path: &str, node_data_dir: &str, db_dir: &str) -> (r: Vec<String>)
    ensures
        string_views(r@) == indexer_command_spec(binaries_path@, node_data_dir@, db_dir@),
{
    proof {
        reveal_strlit("electrs");
    }
    let program = join_path_str(binaries_path, "electrs");
    let r = vec![
        program,
        "--network".to_owned(),
        "bitcoin".to_owned(),
        "--daemon-dir".to_owned(),
        node_data_dir.to_owned(),
        "--db-dir".to_owned(),
        db_dir.to_owned(),
        "--electrum-rpc-addr".to_owned(),
        "127.0.0.1:50001".to_owned(),
    ];
    assert(string_views(r@) =~= indexer_command_spec(binaries_path@, node_data_dir@, db_dir@));
    r
}

/// The line that records a command in the output before it is started.
pub fn command_line(cmd: &Vec<String>) -> (r: String)
    ensures
        r@ == "$ "@ + joined(string_views(cmd@), " "@),
{
    let mut line = "$ ".to_owned();
    let rest = join_strings(cmd, " ");
    line.append(rest.as_str());
    line
}

} // verus!
