//! The backup engine's command lines, and what its structured output means.
use vstd::prelude::*;
use crate::config::clone_opt;
use crate::errors::AgentError;
use crate::text::{copy_str, decimal, push_decimal, push_str, str_eq};

verus! {

/// The backup engine, by the path of its binary.
pub struct Restic {
    pub binary: String,
}

pub struct SnapshotInfo {
    pub id: String,
    pub time: String,
    pub hostname: Option<String>,
    pub tags: Option<Vec<String>>,
}

pub struct SnapshotStats {
    pub total_size: u64,
    pub total_file_count: u64,
}

/// What a finished backup reported; empty when no summary line came.
pub struct BackupSummary {
    pub snapshot_id: Option<String>,
    pub data_added: Option<u64>,
    pub files_processed: Option<u64>,
}

/// The fields of an output line decoded as a status update.
pub struct StatusLine {
    pub message_type: Option<String>,
    pub total_files: Option<u64>,
    pub files_done: Option<u64>,
    pub total_bytes: Option<u64>,
    pub bytes_done: Option<u64>,
    pub current_file: Option<String>,
}

/// The fields of an output line decoded as a terminal summary.
pub struct SummaryLine {
    pub message_type: Option<String>,
    pub snapshot_id: Option<String>,
    pub data_added: Option<u64>,
    pub total_files_processed: Option<u64>,
}

#[derive(Debug, Clone, Copy, PartialEq, Eq, Structural)]
pub enum LineKind {
    Status,
    Summary,
    Ignored,
}

pub open spec fn typed(t: Option<String>, name: Seq<char>) -> bool {
    match t {
        Some(s) => s@ == name,
        None => false,
    }
}

fn has_type(t: &Option<String>, name: &str) -> (r: bool)
    ensures
        r == typed(*t, name@),
{
    match t {
        Some(s) => str_eq(s.as_str(), name),
        None => false,
    }
}

/// Classifies an output line from its decodings (`None` where it did not decode
/// as that shape): a status update first, else a summary, else nothing.
pub fn classify_line(status: &Option<StatusLine>, summary: &Option<SummaryLine>) -> (r: LineKind)
    ensures
        r == if status is Some && typed(status->0.message_type, "status"@) {
            LineKind::Status
        } else if summary is Some && typed(summary->0.message_type, "summary"@) {
            LineKind::Summary
        } else {
            LineKind::Ignored
        },
{
    if let Some(s) = status {
        if has_type(&s.message_type, "status") {
            return LineKind::Status;
        }
    }
    if let Some(s) = summary {
        if has_type(&s.message_type, "summary") {
            return LineKind::Summary;
        }
    }
    LineKind::Ignored
}

impl BackupSummary {
    pub fn empty() -> (r: BackupSummary)
        ensures
            r.snapshot_id is None && r.data_added is None && r.files_processed is None,
    {
        BackupSummary { snapshot_id: None, data_added: None, files_processed: None }
    }

    /// Takes the fields of `line` when it is a summary line; the last one wins.
    pub fn absorb(&mut self, line: &SummaryLine)
        ensures
            typed(line.message_type, "summary"@) ==> final(self).snapshot_id == line.snapshot_id
                && final(self).data_added == line.data_added && final(self).files_processed
                == line.total_files_processed,
            !typed(line.message_type, "summary"@) ==> *final(self) == *old(self),
    {
        if has_type(&line.message_type, "summary") {
            self.snapshot_id = clone_opt(&line.snapshot_id);
            self.data_added = line.data_added;
            self.files_processed = line.total_files_processed;
        }
    }
}

impl Clone for BackupSummary {
    fn clone(&self) -> (r: Self)
        ensures
            r == *self,
    {
        BackupSummary {
            snapshot_id: clone_opt(&self.snapshot_id),
            data_added: self.data_added,
            files_processed: self.files_processed,
        }
    }
}

/// The views of a list of strings.
pub open spec fn views(v: Seq<String>) -> Seq<Seq<char>> {
    v.map_values(|s: String| s@)
}

/// `flag x` for each `x` of `v`, in order.
pub open spec fn flagged(flag: Seq<char>, v: Seq<Seq<char>>) -> Seq<Seq<char>>
    decreases v.len(),
{
    if v.len() == 0 {
        seq![]
    } else {
        flagged(flag, v.drop_last()) + seq![flag, v.last()]
    }
}

fn push_flagged(args: &mut Vec<String>, flag: &str, v: &Vec<String>)
    ensures
        views(final(args)@) == views(old(args)@) + flagged(flag@, views(v@)),
{
    let ghost a0 = views(args@);
    let mut i: usize = 0;
    while i < v.len()
        invariant
            i <= v.len(),
            views(args@) == a0 + flagged(flag@, views(v@.take(i as int))),
        decreases v.len() - i,
    {
        let ghost before = views(args@);
        args.push(copy_str(flag));
        args.push(copy_str(v[i].as_str()));
        proof {
            let t = views(v@.take(i as int + 1));
            assert(t.drop_last() =~= views(v@.take(i as int)));
            assert(views(args@) =~= before + seq![flag@, v@[i as int]@]);
            assert(views(args@) =~= a0 + flagged(flag@, t));
        }
        i += 1;
    }
    assert(v@.take(v.len() as int) =~= v@);
}

fn push_all(args: &mut Vec<String>, v: &Vec<String>)
    ensures
        views(final(args)@) == views(old(args)@) + views(v@),
{
    let ghost a0 = views(args@);
    let mut i: usize = 0;
    while i < v.len()
        invariant
            i <= v.len(),
            views(args@) == a0 + views(v@.take(i as int)),
        decreases v.len() - i,
    {
        let ghost before = views(args@);
        args.push(copy_str(v[i].as_str()));
        assert(views(args@) =~= before.push(v@[i as int]@));
        assert(views(v@.take(i as int + 1)) =~= views(v@.take(i as int)).push(v@[i as int]@));
        assert(views(args@) =~= a0 + views(v@.take(i as int + 1)));
        i += 1;
    }
    assert(v@.take(v.len() as int) =~= v@);
}

fn push_two(args: &mut Vec<String>, a: &str, b: &str)
    ensures
        views(final(args)@) == views(old(args)@) + seq![a@, b@],
{
    let two = strings(a, b);
    push_all(args, &two);
}

fn strings(a: &str, b: &str) -> (r: Vec<String>)
    ensures
        views(r@) == seq![a@, b@],
{
    let r = vec![copy_str(a), copy_str(b)];
    assert(views(r@) =~= seq![a@, b@]);
    r
}

/// The arguments of a backup run with streamed JSON output.
pub open spec fn backup_args_of(
    includes: Seq<Seq<char>>,
    excludes: Seq<Seq<char>>,
    sources: Seq<Seq<char>>,
) -> Seq<Seq<char>> {
    seq!["backup"@, "--json"@] + flagged("--include"@, includes) + flagged("--exclude"@, excludes)
        + sources
}

pub fn backup_args(includes: &Vec<String>, excludes: &Vec<String>, sources: &Vec<String>) -> (r:
    Vec<String>)
    ensures
        views(r@) == backup_args_of(views(includes@), views(excludes@), views(sources@)),
{
    let mut args = strings("backup", "--json");
    push_flagged(&mut args, "--include", includes);
    push_flagged(&mut args, "--exclude", excludes);
    push_all(&mut args, sources);
    args
}

pub open spec fn restore_args_of(
    snapshot_id: Seq<char>,
    target: Seq<char>,
    includes: Seq<Seq<char>>,
) -> Seq<Seq<char>> {
    seq!["restore"@, snapshot_id, "--target"@, target] + flagged("--include"@, includes)
}

pub fn restore_args(snapshot_id: &str, target: &str, includes: &Vec<String>) -> (r: Vec<String>)
    ensures
        views(r@) == restore_args_of(snapshot_id@, target@, views(includes@)),
{
    let mut args = strings("restore", snapshot_id);
    push_two(&mut args, "--target", target);
    assert(views(args@) =~= seq!["restore"@, snapshot_id@, "--target"@, target@]);
    push_flagged(&mut args, "--include", includes);
    args
}

/// Forget-and-prune arguments for `retention_args`; nothing to run when there are none.
pub fn forget_prune_args(retention_args: &Vec<String>) -> (r: Option<Vec<String>>)
    ensures
        retention_args@.len() == 0 ==> r is None,
        retention_args@.len() > 0 ==> r is Some && views(r->0@) == seq!["forget"@, "--prune"@]
            + views(retention_args@),
{
    if retention_args.len() == 0 {
        return None;
    }
    let mut args = strings("forget", "--prune");
    push_all(&mut args, retention_args);
    Some(args)
}

/// A consistency check: of a data subset, or of all data when `deep`.
pub fn check_args(deep: bool) -> (r: Vec<String>)
    ensures
        deep ==> views(r@) == seq!["check"@, "--read-data"@],
        !deep ==> views(r@) == seq!["check"@, "--read-data-subset=1/20"@],
{
    if deep {
        strings("check", "--read-data")
    } else {
        strings("check", "--read-data-subset=1/20")
    }
}

pub fn init_args() -> (r: Vec<String>)
    ensures
        views(r@) == seq!["init"@],
{
    let r = vec![copy_str("init")];
    assert(views(r@) =~= seq!["init"@]);
    r
}

/// Reads the repository's config, which holds its id.
pub fn config_args() -> (r: Vec<String>)
    ensures
        views(r@) == seq!["cat"@, "config"@],
{
    strings("cat", "config")
}

pub fn snapshots_args() -> (r: Vec<String>)
    ensures
        views(r@) == seq!["snapshots"@, "--json"@],
{
    strings("snapshots", "--json")
}

pub fn stats_args(snapshot_id: &str) -> (r: Vec<String>)
    ensures
        views(r@) == seq!["stats"@, "--json"@, "--snapshot"@, snapshot_id@],
{
    let mut args = strings("stats", "--json");
    push_two(&mut args, "--snapshot", snapshot_id);
    assert(views(args@) =~= seq!["stats"@, "--json"@, "--snapshot"@, snapshot_id@]);
    args
}

impl Restic {
    /// The engine at `override_path` if one is configured, else the bundled one if it
    /// exists, else the one found on the search path.
    pub fn select(
        override_path: Option<&str>,
        bundled: Option<String>,
        on_path: Option<String>,
    ) -> (r: Result<Restic, AgentError>)
        ensures
            match override_path {
                Some(p) => r matches Ok(x) && x.binary@ == p@,
                None => match bundled {
                    Some(b) => r matches Ok(x) && x.binary == b,
                    None => match on_path {
                        Some(w) => r matches Ok(x) && x.binary == w,
                        None => r == Err::<Restic, AgentError>(AgentError::Engine),
                    },
                },
            },
    {
        match override_path {
            Some(p) => Ok(Restic { binary: copy_str(p) }),
            None => match bundled {
                Some(b) => Ok(Restic { binary: b }),
                None => match on_path {
                    Some(w) => Ok(Restic { binary: w }),
                    None => Err(AgentError::Engine),
                },
            },
        }
    }

    /// The full argument list for running `args` on the repository at `repo`.
    pub fn command_args(&self, repo: &str, args: &Vec<String>) -> (r: Vec<String>)
        ensures
            views(r@) == seq!["--repo"@, repo@] + views(args@),
    {
        let mut all = strings("--repo", repo);
        push_all(&mut all, args);
        all
    }
}

/// The progress line shown for a running backup.
pub open spec fn progress_message_of(pct: u32, files_done: u64, total_files: u64) -> Seq<char> {
    "Backing up: "@ + decimal(pct as nat) + "% ("@ + decimal(files_done as nat) + " / "@ + decimal(
        total_files as nat,
    ) + " files)"@
}

pub fn progress_message(pct: u32, files_done: u64, total_files: u64) -> (r: String)
    ensures
        r@ == progress_message_of(pct, files_done, total_files),
{
    let mut s = copy_str("Backing up: ");
    push_decimal(&mut s, pct as u64);
    push_str(&mut s, "% (");
    push_decimal(&mut s, files_done);
    push_str(&mut s, " / ");
    push_decimal(&mut s, total_files);
    push_str(&mut s, " files)");
    s
}

} // verus!
