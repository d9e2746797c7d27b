//! Replacing the installed daemon binaries with newer builds: reading
//! version folder names, choosing the newest per component, driving the
//! copy of each binary through a temporary file, and summing up the outcome.

use crate::text::{
    after_prefix, chars_of, join_path, join_path_str, join_strings, joined, parse_unsigned,
    parse_unsigned_range, pieces_at, range_starts_with, split_bounds, split_on, starts_with,
    string_views,
};
use vstd::prelude::*;
use vstd::string::StringExecFns;

verus! {

/// A version as (major, minor, patch).
pub type Version = (u64, u64, u64);

/// The piece `i` of a dotted version read as a number, 0 where it is missing
/// or not a number.
pub open spec fn version_part(parts: Seq<Seq<char>>, i: int) -> int {
    if i < parts.len() {
        match parse_unsigned(parts[i], u64::MAX as int) {
            Some(n) => n,
            None => 0,
        }
    } else {
        0
    }
}

/// `major[.minor[.patch]]`: the major part must be a number; a missing or
/// unreadable minor or patch part counts as 0, and later parts are ignored.
pub open spec fn semver_spec(s: Seq<char>) -> Option<(int, int, int)> {
    let parts = split_on(s, '.');
    match parse_unsigned(parts[0], u64::MAX as int) {
        Some(major) => Some((major, version_part(parts, 1), version_part(parts, 2))),
        None => None,
    }
}

pub open spec fn version_view(v: Version) -> (int, int, int) {
    (v.0 as int, v.1 as int, v.2 as int)
}

/// `a` is a strictly later version than `b`: major, then minor, then patch.
pub open spec fn version_gt(a: (int, int, int), b: (int, int, int)) -> bool {
    ||| a.0 > b.0
    ||| (a.0 == b.0 && a.1 > b.1)
    ||| (a.0 == b.0 && a.1 == b.1 && a.2 > b.2)
}

/// The version in a folder named `<prefix>-<version>`.
pub open spec fn folder_version_spec(name: Seq<char>, prefix: Seq<char>) -> Option<(int, int, int)> {
    let lead = prefix.push('-');
    if starts_with(name, lead) {
        semver_spec(after_prefix(name, lead))
    } else {
        None
    }
}

/// The index and version of the newest folder among `names`; of equal
/// versions the first one seen wins.
pub open spec fn newest_folder(names: Seq<Seq<char>>, prefix: Seq<char>) -> Option<
    (int, (int, int, int)),
>
    decreases names.len(),
{
    if names.len() == 0 {
        None
    } else {
        let prev = newest_folder(names.drop_last(), prefix);
        let last = names.len() - 1;
        match folder_version_spec(names.last(), prefix) {
            None => prev,
            Some(v) => match prev {
                None => Some((last, v)),
                Some(best) => if version_gt(v, best.1) {
                    Some((last, v))
                } else {
                    prev
                },
            },
        }
    }
}

fn part_or_zero(v: &Vec<char>, bounds: &Vec<(usize, usize)>, i: usize) -> (r: u64)
    requires
        forall|k: int| 0 <= k < bounds.len() ==> (#[trigger] bounds@[k]).0 <= bounds@[k].1 <= v.len(),
    ensures
        r as int == version_part(pieces_at(v@, bounds@), i as int),
{
    if i < bounds.len() {
        let (lo, hi) = bounds[i];
        match parse_unsigned_range(v, lo, hi, u64::MAX) {
            Some(n) => n,
            None => 0,
        }
    } else {
        0
    }
}

/// Reads a dotted version such as `27.0.1`.
pub fn parse_semver(s: &str) -> (r: Option<Version>)
    ensures
        match r {
            Some(ver) => semver_spec(s@) == Some(version_view(ver)),
            None => semver_spec(s@) is None,
        },
{
    let v = chars_of(s);
    let bounds = split_bounds(&v, '.');
    let (lo, hi) = bounds[0];
    match parse_unsigned_range(&v, lo, hi, u64::MAX) {
        Some(major) => {
            let minor = part_or_zero(&v, &bounds, 1);
            let patch = part_or_zero(&v, &bounds, 2);
            Some((major, minor, patch))
        },
        None => None,
    }
}

/// The version of a folder named `<prefix>-<version>`, if its name has that form.
pub fn folder_version(name: &str, prefix: &str) -> (r: Option<Version>)
    ensures
        match r {
            Some(ver) => folder_version_spec(name@, prefix@) == Some(version_view(ver)),
            None => folder_version_spec(name@, prefix@) is None,
        },
{
    let v = chars_of(name);
    let mut lead = chars_of(prefix);
    lead.push('-');
    if !range_starts_with(&v, 0, v.len(), &lead) {
        proof {
            assert(v@.subrange(0, v@.len() as int) =~= v@);
        }
        return None;
    }
    proof {
        assert(v@.subrange(0, v@.len() as int) =~= v@);
    }
    let rest = name.substring_char(lead.len(), v.len());
    parse_semver(rest)
}

fn version_greater(a: Version, b: Version) -> (r: bool)
    ensures
        r == version_gt(version_view(a), version_view(b)),
{
    a.0 > b.0 || (a.0 == b.0 && a.1 > b.1) || (a.0 == b.0 && a.1 == b.1 && a.2 > b.2)
}

/// The name of the newest `<prefix>-<version>` folder among `names`, which
/// are the names of the directories found in one place. Of equal versions the
/// first one listed wins; names without a readable version are ignored.
pub fn latest_version(names: &Vec<String>, prefix: &str) -> (r: Option<String>)
    ensures
        match newest_folder(string_views(names@), prefix@) {
            Some(best) => r is Some && r->0@ == names@[best.0]@,
            None => r is None,
        },
{
    let mut best: Option<(Version, usize)> = None;
    let mut i: usize = 0;
    while i < names.len()
        invariant
            i <= names.len(),
            match newest_folder(string_views(names@).take(i as int), prefix@) {
                Some(b) => best matches Some(x) && version_view(x.0) == b.1 && x.1 as int == b.0
                    && b.0 < i,
                None => best is None,
            },
        decreases names.len() - i,
    {
        let ghost ns = string_views(names@).take(i + 1);
        assert(ns.drop_last() =~= string_views(names@).take(i as int));
        assert(ns.last() == names@[i as int]@);
        match folder_version(names[i].as_str(), prefix) {
            Some(ver) => {
                match best {
                    None => {
                        best = Some((ver, i));
                    },
                    Some(b) => {
                        if version_greater(ver, b.0) {
                            best = Some((ver, i));
                        }
                    },
                }
            },
            None => {},
        }
        i = i + 1;
    }
    assert(string_views(names@).take(names.len() as int) =~= string_views(names@));
    match best {
        Some(b) => Some(names[b.1].clone()),
        None => None,
    }
}

/// The folder chosen for `prefix` has a readable version, no matching
/// folder has a later one, and every matching folder listed before it has an
/// earlier one (of equal versions, the first listed is chosen). When none is
/// chosen, no folder matches.
pub proof fn lemma_newest_folder_is_latest(names: Seq<Seq<char>>, prefix: Seq<char>)
    ensures
        match newest_folder(names, prefix) {
            Some(best) => {
                &&& 0 <= best.0 < names.len()
                &&& folder_version_spec(names[best.0], prefix) == Some(best.1)
                &&& forall|j: int|
                    0 <= j < names.len() && (#[trigger] folder_version_spec(names[j], prefix)) is Some
                        ==> !version_gt(folder_version_spec(names[j], prefix)->0, best.1)
                &&& forall|j: int|
                    0 <= j < best.0 && (#[trigger] folder_version_spec(names[j], prefix)) is Some
                        ==> version_gt(best.1, folder_version_spec(names[j], prefix)->0)
            },
            None => forall|j: int|
                0 <= j < names.len() ==> (#[trigger] folder_version_spec(names[j], prefix)) is None,
        },
    decreases names.len(),
{
    if names.len() > 0 {
        let init = names.drop_last();
        let last = names.len() - 1;
        lemma_newest_folder_is_latest(init, prefix);
        assert forall|j: int| 0 <= j < init.len() implies #[trigger] init[j] == names[j] by {}
        let prev = newest_folder(init, prefix);
        assert(names.last() == names[last]);
        match folder_version_spec(names[last], prefix) {
            None => {
                assert forall|j: int|
                    0 <= j < names.len() && (#[trigger] folder_version_spec(names[j], prefix)) is Some
                        implies j < last by {}
                if prev is None {
                    assert forall|j: int| 0 <= j < names.len() implies (#[trigger] folder_version_spec(
                        names[j],
                        prefix,
                    )) is None by {
                        if j < last {
                            assert(folder_version_spec(init[j], prefix) is None);
                        }
                    }
                } else {
                    let best = prev->0;
                    assert forall|j: int|
                        0 <= j < names.len() && (#[trigger] folder_version_spec(names[j], prefix)) is Some
                            implies !version_gt(folder_version_spec(names[j], prefix)->0, best.1) by {
                        assert(folder_version_spec(init[j], prefix) is Some);
                    }
                    assert forall|j: int|
                        0 <= j < best.0 && (#[trigger] folder_version_spec(names[j], prefix)) is Some
                            implies version_gt(best.1, folder_version_spec(names[j], prefix)->0) by {
                        assert(folder_version_spec(init[j], prefix) is Some);
                    }
                }
            },
            Some(v) => {
                if prev is None {
                    assert forall|j: int|
                        0 <= j < names.len() && (#[trigger] folder_version_spec(names[j], prefix)) is Some
                            implies j == last by {
                        if j < last {
                            assert(folder_version_spec(init[j], prefix) is None);
                        }
                    }
                } else {
                    let best = prev->0;
                    if version_gt(v, best.1) {
                        assert forall|j: int|
                            0 <= j < names.len() && (#[trigger] folder_version_spec(names[j], prefix)) is Some
                                implies !version_gt(folder_version_spec(names[j], prefix)->0, v) && (j < last ==> version_gt(v, folder_version_spec(names[j], prefix)->0)) by {
                            if j < last {
                                assert(folder_version_spec(init[j], prefix) is Some);
                                assert(!version_gt(folder_version_spec(init[j], prefix)->0, best.1));
                            }
                        }
                    } else {
                        assert forall|j: int|
                            0 <= j < names.len() && (#[trigger] folder_version_spec(names[j], prefix)) is Some
                                implies !version_gt(folder_version_spec(names[j], prefix)->0, best.1) by {
                            if j < last {
                                assert(folder_version_spec(init[j], prefix) is Some);
                            }
                        }
                        assert forall|j: int|
                            0 <= j < best.0 && (#[trigger] folder_version_spec(names[j], prefix)) is Some
                                implies version_gt(best.1, folder_version_spec(names[j], prefix)->0) by {
                            assert(folder_version_spec(init[j], prefix) is Some);
                        }
                    }
                }
            },
        }
    }
}

/// Where a copy of several binaries stands.
#[derive(Clone, Copy, PartialEq, Eq, Structural, Debug)]
pub enum CopyStage {
    /// The destination directory is to be created.
    Prepare,
    /// The current binary's source is to be looked for.
    Check,
    /// The current binary is to be copied to its temporary file.
    Copy,
    /// The temporary file is to be made executable.
    Chmod,
    /// The temporary file is to be renamed over the installed binary.
    Rename,
    /// Nothing is left to do.
    Done,
}

/// What the caller is to do next for a [`BinaryCopy`]; it then reports
/// whether that succeeded.
#[derive(Debug)]
pub enum CopyAction {
    /// Create this directory and its parents.
    CreateDir(String),
    /// Report whether this source file exists.
    CheckSource(String),
    /// Copy the source file (first) to the temporary file (second).
    CopyToTemp(String, String),
    /// Give this file the mode `rwxr-xr-x`.
    MakeExecutable(String),
    /// Rename the temporary file (first) over the installed binary (second).
    Rename(String, String),
    /// The copy is over.
    Finished,
}

/// The temporary name under which `name` is written before it is renamed.
pub open spec fn temp_name_spec(name: Seq<char>) -> Seq<char> {
    seq!['.'] + name + seq!['.', 't', 'm', 'p']
}

/// A binary's source, temporary and installed paths.
pub open spec fn source_path(c: BinaryCopy, i: int) -> Seq<char> {
    join_path(c.src_dir@, c.names@[i]@)
}

pub open spec fn temp_path(c: BinaryCopy, i: int) -> Seq<char> {
    join_path(c.dst_dir@, temp_name_spec(c.names@[i]@))
}

pub open spec fn dest_path(c: BinaryCopy, i: int) -> Seq<char> {
    join_path(c.dst_dir@, c.names@[i]@)
}

/// The position (stage, binary index) after a report on the current step.
pub open spec fn next_position(stage: CopyStage, ok: bool, index: int, n: int) -> (CopyStage, int) {
    let next_binary = if index + 1 < n {
        (CopyStage::Check, index + 1)
    } else {
        (CopyStage::Done, n)
    };
    match stage {
        CopyStage::Prepare => if !ok {
            (CopyStage::Done, index)
        } else if n > 0 {
            (CopyStage::Check, 0)
        } else {
            (CopyStage::Done, 0)
        },
        CopyStage::Check => if ok {
            (CopyStage::Copy, index)
        } else {
            next_binary
        },
        CopyStage::Copy => if ok {
            (CopyStage::Chmod, index)
        } else {
            next_binary
        },
        CopyStage::Chmod => if ok {
            (CopyStage::Rename, index)
        } else {
            next_binary
        },
        CopyStage::Rename => next_binary,
        CopyStage::Done => (CopyStage::Done, index),
    }
}

/// A failed step is recorded, but a missing source is no failure: that
/// binary is skipped.
pub open spec fn records_failure(stage: CopyStage, ok: bool) -> bool {
    !ok && (stage == CopyStage::Prepare || stage == CopyStage::Copy || stage == CopyStage::Chmod
        || stage == CopyStage::Rename)
}

/// The copy of the binaries `names` from `src_dir` into `dst_dir`. Each one
/// is written to a temporary file in `dst_dir`, made executable, and only
/// then renamed over its installed name, so that a partial write never
/// replaces a working binary. A binary absent from `src_dir` is skipped; a
/// failed step is recorded and the copy goes on with the next binary.
pub struct BinaryCopy {
    pub src_dir: String,
    pub dst_dir: String,
    pub names: Vec<String>,
    pub index: usize,
    pub stage: CopyStage,
    /// The binaries installed so far, in order.
    pub copied: Vec<String>,
    /// What went wrong, one entry per failed step.
    pub failures: Vec<String>,
}

impl BinaryCopy {
    pub open spec fn wf(&self) -> bool {
        &&& self.index <= self.names.len()
        &&& (self.stage == CopyStage::Check || self.stage == CopyStage::Copy || self.stage
            == CopyStage::Chmod || self.stage == CopyStage::Rename) ==> self.index
            < self.names.len()
        &&& forall|i: int|
            0 <= i < self.names.len() ==> (#[trigger] self.names@[i]@).len() == 0
                || self.names@[i]@[0] != '/'
    }

    /// A copy that has not started.
    pub fn new(src_dir: String, dst_dir: String, names: Vec<String>) -> (r: BinaryCopy)
        requires
            forall|i: int|
                0 <= i < names.len() ==> (#[trigger] names@[i]@).len() == 0 || names@[i]@[0]
                    != '/',
        ensures
            r.wf(),
            r.src_dir == src_dir,
            r.dst_dir == dst_dir,
            r.names == names,
            r.index == 0,
            r.stage == CopyStage::Prepare,
            r.copied@.len() == 0,
            r.failures@.len() == 0,
    {
        BinaryCopy {
            src_dir,
            dst_dir,
            names,
            index: 0,
            stage: CopyStage::Prepare,
            copied: Vec::new(),
            failures: Vec::new(),
        }
    }

    fn temp_file(&self) -> (r: String)
        requires
            self.wf(),
            self.index < self.names.len(),
        ensures
            r@ == temp_path(*self, self.index as int),
    {
        let mut t = String::new();
        t.append(".");
        t.append(self.names[self.index].as_str());
        t.append(".tmp");
        proof {
            reveal_strlit(".");
            reveal_strlit(".tmp");
            assert(t@ =~= temp_name_spec(self.names@[self.index as int]@));
        }
        join_path_str(self.dst_dir.as_str(), t.as_str())
    }

    /// The step to perform now.
    pub fn action(&self) -> (r: CopyAction)
        requires
            self.wf(),
        ensures
            match self.stage {
                CopyStage::Prepare => r matches CopyAction::CreateDir(d) && d@ == self.dst_dir@,
                CopyStage::Check => r matches CopyAction::CheckSource(p) && p@ == source_path(
                    *self,
                    self.index as int,
                ),
                CopyStage::Copy => r matches CopyAction::CopyToTemp(a, b) && a@ == source_path(
                    *self,
                    self.index as int,
                ) && b@ == temp_path(*self, self.index as int),
                CopyStage::Chmod => r matches CopyAction::MakeExecutable(t) && t@ == temp_path(
                    *self,
                    self.index as int,
                ),
                CopyStage::Rename => r matches CopyAction::Rename(a, b) && a@ == temp_path(
                    *self,
                    self.index as int,
                ) && b@ == dest_path(*self, self.index as int),
                CopyStage::Done => r is Finished,
            },
    {
        match self.stage {
            CopyStage::Prepare => CopyAction::CreateDir(self.dst_dir.clone()),
            CopyStage::Check => CopyAction::CheckSource(
                join_path_str(self.src_dir.as_str(), self.names[self.index].as_str()),
            ),
            CopyStage::Copy => CopyAction::CopyToTemp(
                join_path_str(self.src_dir.as_str(), self.names[self.index].as_str()),
                self.temp_file(),
            ),
            CopyStage::Chmod => CopyAction::MakeExecutable(self.temp_file()),
            CopyStage::Rename => CopyAction::Rename(
                self.temp_file(),
                join_path_str(self.dst_dir.as_str(), self.names[self.index].as_str()),
            ),
            CopyStage::Done => CopyAction::Finished,
        }
    }

    /// Takes the outcome of the step that [`action`](Self::action) named:
    /// `ok` says whether it succeeded (for a source check, whether the source
    /// exists), and `detail` describes a failure.
    pub fn report(&mut self, ok: bool, detail: String)
        requires
            old(self).wf(),
        ensures
            final(self).wf(),
            (final(self).stage, final(self).index as int) == next_position(
                old(self).stage,
                ok,
                old(self).index as int,
                old(self).names.len() as int,
            ),
            final(self).src_dir == old(self).src_dir,
            final(self).dst_dir == old(self).dst_dir,
            final(self).names == old(self).names,
            final(self).copied@ == if old(self).stage == CopyStage::Rename && ok {
                old(self).copied@.push(old(self).names@[old(self).index as int])
            } else {
                old(self).copied@
            },
            final(self).failures@ == if records_failure(old(self).stage, ok) {
                old(self).failures@.push(detail)
            } else {
                old(self).failures@
            },
    {
        let n = self.names.len();
        match self.stage {
            CopyStage::Prepare => {
                if !ok {
                    self.failures.push(detail);
                    self.stage = CopyStage::Done;
                } else if n > 0 {
                    self.stage = CopyStage::Check;
                    self.index = 0;
                } else {
                    self.stage = CopyStage::Done;
                    self.index = 0;
                }
            },
            CopyStage::Check => {
                if ok {
                    self.stage = CopyStage::Copy;
                } else {
                    self.next_binary();
                }
            },
            CopyStage::Copy => {
                if ok {
                    self.stage = CopyStage::Chmod;
                } else {
                    self.failures.push(detail);
                    self.next_binary();
                }
            },
            CopyStage::Chmod => {
                if ok {
                    self.stage = CopyStage::Rename;
                } else {
                    self.failures.push(detail);
                    self.next_binary();
                }
            },
            CopyStage::Rename => {
                if ok {
                    let name = self.names[self.index].clone();
                    self.copied.push(name);
                } else {
                    self.failures.push(detail);
                }
                self.next_binary();
            },
            CopyStage::Done => {},
        }
    }

    fn next_binary(&mut self)
        requires
            old(self).index < old(self).names.len(),
        ensures
            (final(self).stage, final(self).index as int) == (if old(self).index + 1 < old(
                self,
            ).names.len() {
                (CopyStage::Check, old(self).index + 1)
            } else {
                (CopyStage::Done, old(self).names.len() as int)
            }),
            final(self).src_dir == old(self).src_dir,
            final(self).dst_dir == old(self).dst_dir,
            final(self).names == old(self).names,
            final(self).copied == old(self).copied,
            final(self).failures == old(self).failures,
    {
        if self.index + 1 < self.names.len() {
            self.index = self.index + 1;
            self.stage = CopyStage::Check;
        } else {
            self.index = self.names.len();
            self.stage = CopyStage::Done;
        }
    }
}

/// Outcome of one update attempt.
#[derive(Debug)]
pub enum UpdateResult {
    /// At least one binary was replaced, or something failed; the text says
    /// what, one line per component and failure.
    Updated(String),
    /// No download folder, but the builder application is installed here.
    BitForgeFound(String),
    /// No download folder and no builder application.
    BitForgeNotFound,
    /// The download folder has no `binaries` sub-folder.
    BinariesSubfolderMissing,
    /// No version folder matched, or none of their binaries was present.
    NothingToUpdate,
}

/// What an update does once the download folder has been looked at.
#[derive(Debug)]
pub enum UpdatePlan {
    /// The update ends here with this outcome.
    Finish(UpdateResult),
    /// Copy from the chosen version folder of each component that has one.
    Copy { node_folder: Option<String>, indexer_folder: Option<String> },
}

/// Where the companion builder application is installed.
pub const BUILDER_APP_PATH: &'static str = "/Applications/BitForge.app";

/// The folder-name prefix of node builds.
pub const NODE_PREFIX: &'static str = "bitcoin";

/// The folder-name prefix of indexer builds.
pub const INDEXER_PREFIX: &'static str = "electrs";

/// The binaries a node build provides.
pub fn node_binaries() -> (r: Vec<String>)
    ensures
        string_views(r@) == seq!["bitcoind"@, "bitcoin-cli"@, "bitcoin-tx"@, "bitcoin-util"@],
        forall|i: int| 0 <= i < r.len() ==> (#[trigger] r@[i]@).len() == 0 || r@[i]@[0] != '/',
{
    let r = vec![
        "bitcoind".to_owned(),
        "bitcoin-cli".to_owned(),
        "bitcoin-tx".to_owned(),
        "bitcoin-util".to_owned(),
    ];
    proof {
        reveal_strlit("bitcoind");
        reveal_strlit("bitcoin-cli");
        reveal_strlit("bitcoin-tx");
        reveal_strlit("bitcoin-util");
        assert(string_views(r@) =~= seq!["bitcoind"@, "bitcoin-cli"@, "bitcoin-tx"@, "bitcoin-util"@]);
    }
    r
}

/// The binaries an indexer build provides.
pub fn indexer_binaries() -> (r: Vec<String>)
    ensures
        string_views(r@) == seq!["electrs"@],
        forall|i: int| 0 <= i < r.len() ==> (#[trigger] r@[i]@).len() == 0 || r@[i]@[0] != '/',
{
    let r = vec!["electrs".to_owned()];
    proof {
        reveal_strlit("electrs");
        assert(string_views(r@) =~= seq!["electrs"@]);
    }
    r
}

/// The name of the newest folder for `prefix`, if any.
pub open spec fn chosen_folder(names: Seq<String>, prefix: Seq<char>) -> Option<Seq<char>> {
    match newest_folder(string_views(names), prefix) {
        Some(best) => Some(names[best.0]@),
        None => None,
    }
}

pub open spec fn option_view(o: Option<String>) -> Option<Seq<char>> {
    match o {
        Some(s) => Some(s@),
        None => None,
    }
}

/// Decides how an update proceeds, in this order: without the download
/// folder, whether the builder application is installed; without its
/// `binaries` sub-folder, that it is missing; with no matching version
/// folder (`folders` are the directory names found there), that there is
/// nothing to update; otherwise, which folder to copy from for each component.
pub fn plan_update(
    downloads_present: bool,
    builder_present: bool,
    binaries_present: bool,
    folders: &Vec<String>,
) -> (r: UpdatePlan)
    ensures
        !downloads_present && builder_present ==> (r matches UpdatePlan::Finish(
            UpdateResult::BitForgeFound(p),
        ) && p@ == BUILDER_APP_PATH@),
        !downloads_present && !builder_present ==> r matches UpdatePlan::Finish(
            UpdateResult::BitForgeNotFound,
        ),
        downloads_present && !binaries_present ==> r matches UpdatePlan::Finish(
            UpdateResult::BinariesSubfolderMissing,
        ),
        downloads_present && binaries_present ==> ({
            let node = chosen_folder(folders@, NODE_PREFIX@);
            let indexer = chosen_folder(folders@, INDEXER_PREFIX@);
            if node is None && indexer is None {
                r matches UpdatePlan::Finish(UpdateResult::NothingToUpdate)
            } else {
                r matches UpdatePlan::Copy { node_folder: n, indexer_folder: i } && option_view(n)
                    == node && option_view(i) == indexer
            }
        }),
{
    if !downloads_present {
        if builder_present {
            return UpdatePlan::Finish(UpdateResult::BitForgeFound(BUILDER_APP_PATH.to_owned()));
        }
        return UpdatePlan::Finish(UpdateResult::BitForgeNotFound);
    }
    if !binaries_present {
        return UpdatePlan::Finish(UpdateResult::BinariesSubfolderMissing);
    }
    let node_folder = latest_version(folders, NODE_PREFIX);
    let indexer_folder = latest_version(folders, INDEXER_PREFIX);
    if node_folder.is_none() && indexer_folder.is_none() {
        return UpdatePlan::Finish(UpdateResult::NothingToUpdate);
    }
    UpdatePlan::Copy { node_folder, indexer_folder }
}

/// The report lines of one component: the binaries installed from `folder`,
/// if any, then one line per failure.
pub open spec fn component_lines(
    label: Seq<char>,
    folder: Seq<char>,
    copied: Seq<Seq<char>>,
    failures: Seq<Seq<char>>,
) -> Seq<Seq<char>> {
    let head = if copied.len() > 0 {
        seq![label + " ("@ + folder + "): "@ + joined(copied, ", "@)]
    } else {
        Seq::<Seq<char>>::empty()
    };
    head + failures.map_values(|f: Seq<char>| label + " update error: "@ + f)
}

/// Appends to `messages` what one component's copy came to.
pub fn report_component(messages: &mut Vec<String>, label: &str, folder: &str, copy: &BinaryCopy)
    ensures
        string_views(final(messages)@) == string_views(old(messages)@) + component_lines(
            label@,
            folder@,
            string_views(copy.copied@),
            string_views(copy.failures@),
        ),
{
    let ghost start = string_views(messages@);
    let ghost fs = string_views(copy.failures@);
    if copy.copied.len() > 0 {
        let mut line = label.to_owned();
        line.append(" (");
        line.append(folder);
        line.append("): ");
        let names = join_strings(&copy.copied, ", ");
        line.append(names.as_str());
        messages.push(line);
    }
    let ghost head = string_views(messages@);
    assert(head == start + (if copy.copied@.len() > 0 {
        seq![label@ + " ("@ + folder@ + "): "@ + joined(string_views(copy.copied@), ", "@)]
    } else {
        Seq::<Seq<char>>::empty()
    })) by {
        if copy.copied@.len() > 0 {
            assert(head =~= start + seq![label@ + " ("@ + folder@ + "): "@ + joined(string_views(copy.copied@), ", "@)]);
        } else {
            assert(head =~= start + Seq::<Seq<char>>::empty());
        }
    }
    let mut k: usize = 0;
    while k < copy.failures.len()
        invariant
            k <= copy.failures.len(),
            fs == string_views(copy.failures@),
            string_views(messages@) == head + fs.take(k as int).map_values(
                |f: Seq<char>| label@ + " update error: "@ + f,
            ),
        decreases copy.failures.len() - k,
    {
        let mut line = label.to_owned();
        line.append(" update error: ");
        line.append(copy.failures[k].as_str());
        let ghost m0 = string_views(messages@);
        let ghost lv = line@;
        messages.push(line);
        assert(string_views(messages@) =~= m0.push(lv));
        assert(fs.take(k + 1) =~= fs.take(k as int).push(fs[k as int]));
        assert(fs.take(k + 1).map_values(|f: Seq<char>| label@ + " update error: "@ + f)
            =~= fs.take(k as int).map_values(|f: Seq<char>| label@ + " update error: "@ + f).push(
            lv,
        ));
        assert(string_views(messages@) =~= head + fs.take(k + 1).map_values(
            |f: Seq<char>| label@ + " update error: "@ + f,
        ));
        k = k + 1;
    }
    assert(fs.take(fs.len() as int) =~= fs);
    assert(string_views(messages@) =~= start + component_lines(label@, folder@, string_views(copy.copied@), fs));
}

/// The outcome once every component has been copied: nothing to report
/// means nothing was updated; otherwise the report, one message per line.
pub fn finish_update(messages: &Vec<String>) -> (r: UpdateResult)
    ensures
        messages.len() == 0 ==> r is NothingToUpdate,
        messages.len() > 0 ==> (r matches UpdateResult::Updated(t) && t@ == joined(
            string_views(messages@),
            "\n"@,
        )),
{
    if messages.len() == 0 {
        UpdateResult::NothingToUpdate
    } else {
        UpdateResult::Updated(join_strings(messages, "\n"))
    }
}

/// A binary whose source is missing is skipped silently: nothing is
/// recorded, the installed list does not grow, and the copy moves on to the
/// next binary without touching the destination.
pub proof fn lemma_missing_source_skipped(index: int, n: int)
    requires
        0 <= index < n,
    ensures
        !records_failure(CopyStage::Check, false),
        next_position(CopyStage::Check, false, index, n) == (if index + 1 < n {
            (CopyStage::Check, index + 1)
        } else {
            (CopyStage::Done, n)
        }),
{
}

/// A partial write never reaches the installed name: the rename over the
/// installed binary is reached only from a successful change of mode, which is
/// reached only from a successful copy to the temporary file, for the same
/// binary; a failure at either step moves on without renaming. The
/// temporary file is never the installed binary itself.
pub proof fn lemma_rename_only_after_complete_write(
    stage: CopyStage,
    ok: bool,
    index: int,
    n: int,
    dst_dir: Seq<char>,
    name: Seq<char>,
)
    requires
        0 <= index < n,
    ensures
        next_position(stage, ok, index, n).0 == CopyStage::Rename ==> stage == CopyStage::Chmod
            && ok && next_position(stage, ok, index, n).1 == index,
        next_position(stage, ok, index, n).0 == CopyStage::Chmod ==> stage == CopyStage::Copy
            && ok && next_position(stage, ok, index, n).1 == index,
        (stage == CopyStage::Copy || stage == CopyStage::Chmod) && !ok ==> next_position(
            stage,
            ok,
            index,
            n,
        ).0 != CopyStage::Rename,
        join_path(dst_dir, temp_name_spec(name)) != join_path(dst_dir, name),
{
    assert(join_path(dst_dir, temp_name_spec(name)).len() != join_path(dst_dir, name).len());
}

} // verus!
