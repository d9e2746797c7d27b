//! The host's view of both daemons: which runs, which has caught up, the
//! latest block height, and the recent output shown for each. The host
//! reports events here and asks what to do; it performs the work itself.

use crate::queue::keep_last;
use crate::rpc::BlockchainInfo;
use crate::sync::{indexer_synced_text, is_electrs_synced_line, node_synced_spec};
use crate::text::string_views;
use std::collections::VecDeque;
use vstd::prelude::*;

verus! {

/// How many recent lines of each daemon's output are kept for display.
pub const DISPLAY_LINES: usize = 5_000;

/// One of the two supervised daemons.
#[derive(Clone, Copy, PartialEq, Eq, Structural, Debug)]
pub enum Daemon {
    Node,
    Indexer,
}

/// The answer to a request to launch a daemon.
#[derive(Clone, Copy, PartialEq, Eq, Structural, Debug)]
pub enum LaunchDecision {
    /// Start the process.
    Proceed,
    /// It is already running; start nothing.
    AlreadyRunning,
    /// The indexer needs the node, which is not running; start nothing.
    NodeNotRunning,
}

/// Whether `daemon` may start: never twice, and the indexer only while the
/// node runs.
pub open spec fn launch_decision_spec(s: Supervisor, daemon: Daemon) -> LaunchDecision {
    match daemon {
        Daemon::Node => if s.node_running {
            LaunchDecision::AlreadyRunning
        } else {
            LaunchDecision::Proceed
        },
        Daemon::Indexer => if s.indexer_running {
            LaunchDecision::AlreadyRunning
        } else if !s.node_running {
            LaunchDecision::NodeNotRunning
        } else {
            LaunchDecision::Proceed
        },
    }
}

/// The recent output of one daemon, at most `DISPLAY_LINES` lines.
pub struct DisplayLog {
    lines: VecDeque<String>,
}

impl View for DisplayLog {
    type V = Seq<Seq<char>>;

    closed spec fn view(&self) -> Seq<Seq<char>> {
        string_views(self.lines@)
    }
}

impl DisplayLog {
    pub fn new() -> (r: DisplayLog)
        ensures
            r@.len() == 0,
    {
        let r = DisplayLog { lines: VecDeque::new() };
        assert(r@ =~= Seq::<Seq<char>>::empty());
        r
    }

    pub fn len(&self) -> (r: usize)
        ensures
            r == self@.len(),
    {
        self.lines.len()
    }

    /// The line at `i`, oldest first.
    pub fn line(&self, i: usize) -> (r: &String)
        requires
            i < self@.len(),
        ensures
            r@ == self@[i as int],
    {
        &self.lines[i]
    }

    /// Appends `new_lines` and keeps only the most recent `DISPLAY_LINES`.
    pub fn extend(&mut self, new_lines: Vec<String>)
        ensures
            final(self)@ == keep_last(old(self)@ + string_views(new_lines@), DISPLAY_LINES as nat),
    {
        let ghost start = string_views(self.lines@);
        let ghost all = new_lines@;
        for line in it: new_lines
            invariant
                it.seq() == all,
                string_views(self.lines@) == start + string_views(all.take(it.index() as int)),
        {
            let ghost k = it.index();
            assert(line == all[k as int]);
            let ghost before = string_views(self.lines@);
            self.lines.push_back(line);
            assert(all.take(k + 1) =~= all.take(k as int).push(line));
            assert(string_views(self.lines@) =~= before.push(line@));
            assert(string_views(all.take(k + 1)) =~= string_views(all.take(k as int)).push(line@));
        }
        assert(all.take(all.len() as int) =~= all);
        let ghost total = string_views(self.lines@);
        while self.lines.len() > DISPLAY_LINES
            invariant
                string_views(self.lines@) == total.subrange(
                    total.len() - self.lines@.len(),
                    total.len() as int,
                ),
                self.lines@.len() <= total.len(),
                total.len() > DISPLAY_LINES ==> self.lines@.len() >= DISPLAY_LINES,
                total.len() <= DISPLAY_LINES ==> self.lines@.len() == total.len(),
            decreases self.lines@.len(),
        {
            let ghost before = self.lines@;
            self.lines.pop_front();
            assert(self.lines@ =~= before.drop_first());
            assert(string_views(self.lines@) =~= string_views(before).drop_first());
            assert(string_views(self.lines@) =~= total.subrange(
                total.len() - self.lines@.len(),
                total.len() as int,
            ));
        }
        assert(total.subrange(0, total.len() as int) =~= total);
    }
}

/// Whether some line of `lines` says that the indexer has caught up.
pub open spec fn any_synced_line(lines: Seq<Seq<char>>) -> bool {
    exists|i: int| 0 <= i < lines.len() && indexer_synced_text(#[trigger] lines[i])
}

/// What the host knows of both daemons.
pub struct Supervisor {
    pub node_running: bool,
    pub node_synced: bool,
    pub indexer_running: bool,
    /// Set once the indexer's output says it has caught up; cleared only when
    /// the indexer stops (or is launched afresh).
    pub indexer_synced: bool,
    pub block_height: u64,
    pub node_log: DisplayLog,
    pub indexer_log: DisplayLog,
}

impl Supervisor {
    /// Nothing running, nothing synced, no output.
    pub fn new() -> (r: Supervisor)
        ensures
            !r.node_running && !r.node_synced && !r.indexer_running && !r.indexer_synced,
            r.block_height == 0,
            r.node_log@.len() == 0,
            r.indexer_log@.len() == 0,
    {
        Supervisor {
            node_running: false,
            node_synced: false,
            indexer_running: false,
            indexer_synced: false,
            block_height: 0,
            node_log: DisplayLog::new(),
            indexer_log: DisplayLog::new(),
        }
    }

    /// Whether to start `daemon` now. The indexer is started only while the
    /// node runs; a running daemon is never started twice.
    pub fn launch_decision(&self, daemon: Daemon) -> (r: LaunchDecision)
        ensures
            r == launch_decision_spec(*self, daemon),
    {
        match daemon {
            Daemon::Node => if self.node_running {
                LaunchDecision::AlreadyRunning
            } else {
                LaunchDecision::Proceed
            },
            Daemon::Indexer => if self.indexer_running {
                LaunchDecision::AlreadyRunning
            } else if !self.node_running {
                LaunchDecision::NodeNotRunning
            } else {
                LaunchDecision::Proceed
            },
        }
    }

    /// `daemon`'s process was started: it runs and has not caught up yet.
    pub fn launched(&mut self, daemon: Daemon)
        ensures
            daemon == Daemon::Node ==> final(self).node_running && !final(self).node_synced
                && final(self).indexer_running == old(self).indexer_running
                && final(self).indexer_synced == old(self).indexer_synced,
            daemon == Daemon::Indexer ==> final(self).indexer_running && !final(self).indexer_synced
                && final(self).node_running == old(self).node_running
                && final(self).node_synced == old(self).node_synced,
            final(self).block_height == old(self).block_height,
            final(self).node_log@ == old(self).node_log@,
            final(self).indexer_log@ == old(self).indexer_log@,
    {
        match daemon {
            Daemon::Node => {
                self.node_running = true;
                self.node_synced = false;
            },
            Daemon::Indexer => {
                self.indexer_running = true;
                self.indexer_synced = false;
            },
        }
    }

    /// Takes the lines drained from both output queues: they are shown, and
    /// any indexer line that says it has caught up sets the sticky flag.
    pub fn absorb_output(&mut self, node_lines: Vec<String>, indexer_lines: Vec<String>)
        ensures
            final(self).node_log@ == keep_last(
                old(self).node_log@ + string_views(node_lines@),
                DISPLAY_LINES as nat,
            ),
            final(self).indexer_log@ == keep_last(
                old(self).indexer_log@ + string_views(indexer_lines@),
                DISPLAY_LINES as nat,
            ),
            final(self).indexer_synced == (old(self).indexer_synced || any_synced_line(
                string_views(indexer_lines@),
            )),
            final(self).node_running == old(self).node_running,
            final(self).node_synced == old(self).node_synced,
            final(self).indexer_running == old(self).indexer_running,
            final(self).block_height == old(self).block_height,
    {
        let mut seen = false;
        let mut i: usize = 0;
        while i < indexer_lines.len()
            invariant
                i <= indexer_lines.len(),
                seen == any_synced_line(string_views(indexer_lines@).take(i as int)),
            decreases indexer_lines.len() - i,
        {
            let hit = is_electrs_synced_line(indexer_lines[i].as_str());
            proof {
                let all = string_views(indexer_lines@);
                let t = all.take(i + 1);
                assert(t[i as int] == indexer_lines@[i as int]@);
                if any_synced_line(all.take(i as int)) {
                    let j = choose|j: int| 0 <= j < i && indexer_synced_text(#[trigger] all.take(i as int)[j]);
                    assert(t[j] == all.take(i as int)[j]);
                }
                if any_synced_line(t) {
                    let j = choose|j: int| 0 <= j < i + 1 && indexer_synced_text(#[trigger] t[j]);
                    if j < i {
                        assert(all.take(i as int)[j] == t[j]);
                    }
                }
            }
            seen = seen || hit;
            i = i + 1;
        }
        assert(string_views(indexer_lines@).take(indexer_lines.len() as int) =~= string_views(indexer_lines@));
        if seen {
            self.indexer_synced = true;
        }
        self.node_log.extend(node_lines);
        self.indexer_log.extend(indexer_lines);
    }

    /// `daemon`'s process was found to have exited. When the node stops, its
    /// chain state is no longer valid. Returns whether it had been running
    /// (and so the host should log the stop).
    pub fn exited(&mut self, daemon: Daemon) -> (r: bool)
        ensures
            daemon == Daemon::Node ==> r == old(self).node_running,
            daemon == Daemon::Indexer ==> r == old(self).indexer_running,
            daemon == Daemon::Node && r ==> !final(self).node_running && !final(self).node_synced
                && final(self).block_height == 0 && final(self).indexer_synced == old(
                self,
            ).indexer_synced && final(self).indexer_running == old(self).indexer_running,
            daemon == Daemon::Indexer && r ==> !final(self).indexer_running
                && !final(self).indexer_synced && final(self).node_running == old(self).node_running
                && final(self).node_synced == old(self).node_synced && final(self).block_height
                == old(self).block_height,
            !r ==> final(self).node_running == old(self).node_running && final(self).node_synced
                == old(self).node_synced && final(self).indexer_running == old(self).indexer_running
                && final(self).indexer_synced == old(self).indexer_synced && final(self).block_height
                == old(self).block_height,
            final(self).node_log@ == old(self).node_log@,
            final(self).indexer_log@ == old(self).indexer_log@,
    {
        match daemon {
            Daemon::Node => {
                if !self.node_running {
                    return false;
                }
                self.node_running = false;
                self.node_synced = false;
                self.block_height = 0;
                true
            },
            Daemon::Indexer => {
                if !self.indexer_running {
                    return false;
                }
                self.indexer_running = false;
                self.indexer_synced = false;
                true
            },
        }
    }

    /// Whether the node's chain state should be polled now.
    pub fn should_poll_chain(&self) -> (r: bool)
        ensures
            r == self.node_running,
    {
        self.node_running
    }

    /// Takes a chain snapshot: the height follows it, and the node's sync
    /// flag is recomputed (it may turn false again).
    pub fn chain_info(&mut self, info: &BlockchainInfo)
        ensures
            final(self).block_height == info.blocks,
            final(self).node_synced == node_synced_spec(
                info.headers as int,
                info.blocks as int,
                info.verification_progress as int,
            ),
            final(self).node_running == old(self).node_running,
            final(self).indexer_running == old(self).indexer_running,
            final(self).indexer_synced == old(self).indexer_synced,
            final(self).node_log@ == old(self).node_log@,
            final(self).indexer_log@ == old(self).indexer_log@,
    {
        self.block_height = info.blocks;
        self.node_synced = info.is_synced();
    }

    /// The indexer is being stopped: it no longer counts as running or synced.
    pub fn stop_indexer(&mut self)
        ensures
            !final(self).indexer_running,
            !final(self).indexer_synced,
            final(self).node_running == old(self).node_running,
            final(self).node_synced == old(self).node_synced,
            final(self).block_height == old(self).block_height,
            final(self).node_log@ == old(self).node_log@,
            final(self).indexer_log@ == old(self).indexer_log@,
    {
        self.indexer_running = false;
        self.indexer_synced = false;
    }

    /// The node is being stopped (after the indexer, which depends on it).
    /// Returns whether it was running, and so whether a stop must be sent.
    pub fn stop_node(&mut self) -> (r: bool)
        ensures
            r == old(self).node_running,
            !final(self).node_running,
            r ==> !final(self).node_synced,
            !r ==> final(self).node_synced == old(self).node_synced,
            final(self).indexer_running == old(self).indexer_running,
            final(self).indexer_synced == old(self).indexer_synced,
            final(self).block_height == old(self).block_height,
            final(self).node_log@ == old(self).node_log@,
            final(self).indexer_log@ == old(self).indexer_log@,
    {
        if !self.node_running {
            return false;
        }
        self.node_running = false;
        self.node_synced = false;
        true
    }
}

/// Launching the indexer while the node is not running never starts it:
/// the answer is a precondition failure, or that it already runs. From a
/// fresh state it is always the precondition failure.
pub proof fn lemma_indexer_needs_node(s: Supervisor)
    ensures
        !s.node_running ==> launch_decision_spec(s, Daemon::Indexer) != LaunchDecision::Proceed,
        !s.node_running && !s.indexer_running ==> launch_decision_spec(s, Daemon::Indexer)
            == LaunchDecision::NodeNotRunning,
{
}

} // verus!
