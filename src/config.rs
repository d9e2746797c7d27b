//! The three paths the manager is configured with, their defaults, and the
//! check applied to edited values before they are saved.

use crate::text::{chars_of, join_path, join_path_str, trim, trim_bounds};
use vstd::prelude::*;

verus! {

/// All persisted settings.
#[derive(Debug, Clone)]
pub struct Config {
    /// Directory holding the node's and the indexer's binaries.
    pub binaries_path: String,
    /// The node's data directory (configuration, chain state, blocks).
    pub bitcoin_data_path: String,
    /// The indexer's database directory.
    pub electrs_data_path: String,
}

/// `s` without leading and trailing white space, as a new string.
pub fn trimmed(s: &str) -> (r: String)
    ensures
        r@ == trim(s@),
{
    let v = chars_of(s);
    let (a, b) = trim_bounds(&v, 0, v.len());
    assert(v@.subrange(0, v@.len() as int) =~= v@);
    s.substring_char(a, b).to_owned()
}

impl Config {
    /// The default layout under the drive root `ssd_root`.
    pub fn defaults(ssd_root: &str) -> (r: Config)
        ensures
            r.binaries_path@ == join_path(ssd_root@, "Binaries"@),
            r.bitcoin_data_path@ == join_path(ssd_root@, "BitcoinChain"@),
            r.electrs_data_path@ == join_path(ssd_root@, "ElectrsDB"@),
    {
        proof {
            reveal_strlit("Binaries");
            reveal_strlit("BitcoinChain");
            reveal_strlit("ElectrsDB");
        }
        Config {
            binaries_path: join_path_str(ssd_root, "Binaries"),
            bitcoin_data_path: join_path_str(ssd_root, "BitcoinChain"),
            electrs_data_path: join_path_str(ssd_root, "ElectrsDB"),
        }
    }

    /// The configuration that edited path fields describe, each trimmed;
    /// `None` when any of them is blank.
    pub fn from_edits(binaries: &str, bitcoin_data: &str, electrs_data: &str) -> (r: Option<Config>)
        ensures
            r is Some <==> (trim(binaries@).len() > 0 && trim(bitcoin_data@).len() > 0 && trim(
                electrs_data@,
            ).len() > 0),
            r matches Some(c) ==> c.binaries_path@ == trim(binaries@) && c.bitcoin_data_path@
                == trim(bitcoin_data@) && c.electrs_data_path@ == trim(electrs_data@),
    {
        let b = trimmed(binaries);
        let n = trimmed(bitcoin_data);
        let e = trimmed(electrs_data);
        if b.as_str().is_empty() || n.as_str().is_empty() || e.as_str().is_empty() {
            None
        } else {
            Some(Config { binaries_path: b, bitcoin_data_path: n, electrs_data_path: e })
        }
    }
}

} // verus!
