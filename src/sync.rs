//! Deciding when each daemon has caught up with the chain: the indexer from
//! its log lines, the node from the numbers its RPC interface reports.

use crate::text::{chars_of, contains_folded, contains_folded_chars};
use vstd::prelude::*;

verus! {

/// Verification progress is carried as a whole number of billionths
/// (`PROGRESS_SCALE` is complete).
pub const PROGRESS_SCALE: u64 = 1_000_000_000;

/// The node counts as synced only above this progress (0.9999 of the chain).
pub const SYNCED_PROGRESS: u64 = 999_900_000;

/// The line, lower-cased by ASCII rules, holds one of the indexer's
/// caught-up messages.
pub open spec fn indexer_synced_text(line: Seq<char>) -> bool {
    ||| contains_folded(line, "finished full compaction"@)
    ||| contains_folded(line, "electrs running"@)
    ||| contains_folded(line, "waiting for new block"@)
    ||| contains_folded(line, "index update completed"@)
    ||| contains_folded(line, "chain best block"@)
}

/// The node's sync rule: some headers are known, the validated blocks reach
/// at least the last header but one, and progress is above 0.9999.
pub open spec fn node_synced_spec(headers: int, blocks: int, progress: int) -> bool {
    headers > 0 && blocks >= headers - 1 && progress > SYNCED_PROGRESS
}

fn has_marker(v: &Vec<char>, marker: &str) -> (r: bool)
    ensures
        r == contains_folded(v@, marker@),
{
    let p = chars_of(marker);
    contains_folded_chars(v, &p)
}

/// Whether one line of the indexer's output says that it has caught up.
/// The test ignores ASCII case.
pub fn is_electrs_synced_line(line: &str) -> (r: bool)
    ensures
        r == indexer_synced_text(line@),
{
    let v = chars_of(line);
    has_marker(&v, "finished full compaction") || has_marker(&v, "electrs running") || has_marker(
        &v,
        "waiting for new block",
    ) || has_marker(&v, "index update completed") || has_marker(&v, "chain best block")
}

/// Whether the node is fully synced, from its header count, its validated
/// block count and its verification progress in billionths.
pub fn node_synced(headers: u64, blocks: u64, progress: u64) -> (r: bool)
    ensures
        r == node_synced_spec(headers as int, blocks as int, progress as int),
{
    headers > 0 && blocks >= headers - 1 && progress > SYNCED_PROGRESS
}

/// With no headers known the node never counts as synced, whatever its
/// block count and progress; and it never counts as synced more than one
/// block behind its headers.
pub proof fn lemma_node_sync_needs_headers(headers: int, blocks: int, progress: int)
    ensures
        headers == 0 ==> !node_synced_spec(headers, blocks, progress),
        blocks < headers - 1 ==> !node_synced_spec(headers, blocks, progress),
        progress <= SYNCED_PROGRESS ==> !node_synced_spec(headers, blocks, progress),
{
}

} // verus!
