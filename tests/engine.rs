use aegis_agent::restic::{
    backup_args, check_args, classify_line, config_args, forget_prune_args, init_args,
    progress_message, restore_args, snapshots_args, stats_args, BackupSummary, LineKind, Restic,
    StatusLine, SummaryLine,
};
use aegis_agent::errors::AgentError;

fn status(t: &str) -> StatusLine {
    StatusLine {
        message_type: Some(t.to_string()),
        total_files: Some(100),
        files_done: Some(50),
        total_bytes: Some(1000),
        bytes_done: Some(500),
        current_file: None,
    }
}

fn summary_line(t: &str, id: &str) -> SummaryLine {
    SummaryLine {
        message_type: Some(t.to_string()),
        snapshot_id: Some(id.to_string()),
        data_added: Some(1024),
        total_files_processed: Some(42),
    }
}

fn s(v: &[&str]) -> Vec<String> {
    v.iter().map(|x| x.to_string()).collect()
}

#[test]
fn output_lines_are_classified() {
    assert_eq!(classify_line(&Some(status("status")), &None), LineKind::Status);
    assert_eq!(
        classify_line(&Some(status("summary")), &Some(summary_line("summary", "a"))),
        LineKind::Summary
    );
    assert_eq!(classify_line(&None, &Some(summary_line("verbose_status", "a"))), LineKind::Ignored);
    assert_eq!(classify_line(&None, &None), LineKind::Ignored);
}

#[test]
fn last_summary_line_wins() {
    let mut acc = BackupSummary::empty();
    acc.absorb(&summary_line("status", "x"));
    assert_eq!(acc.snapshot_id, None);
    acc.absorb(&summary_line("summary", "abc123"));
    acc.absorb(&summary_line("summary", "def456"));
    assert_eq!(acc.snapshot_id.as_deref(), Some("def456"));
    assert_eq!(acc.data_added, Some(1024));
    assert_eq!(acc.files_processed, Some(42));
}

#[test]
fn engine_command_lines() {
    assert_eq!(
        backup_args(&s(&["*.rs"]), &s(&["target", "tmp"]), &s(&["/home/u/a", "/srv"])),
        s(&["backup", "--json", "--include", "*.rs", "--exclude", "target", "--exclude", "tmp", "/home/u/a", "/srv"])
    );
    assert_eq!(
        restore_args("snap", "/restore", &s(&["/a"])),
        s(&["restore", "snap", "--target", "/restore", "--include", "/a"])
    );
    assert_eq!(forget_prune_args(&vec![]), None);
    assert_eq!(
        forget_prune_args(&s(&["--keep-last", "3"])),
        Some(s(&["forget", "--prune", "--keep-last", "3"]))
    );
    assert_eq!(check_args(false), s(&["check", "--read-data-subset=1/20"]));
    assert_eq!(check_args(true), s(&["check", "--read-data"]));
    assert_eq!(init_args(), s(&["init"]));
    assert_eq!(config_args(), s(&["cat", "config"]));
    assert_eq!(snapshots_args(), s(&["snapshots", "--json"]));
    assert_eq!(stats_args("abc"), s(&["stats", "--json", "--snapshot", "abc"]));
    let r = Restic { binary: "/usr/bin/restic".to_string() };
    assert_eq!(r.command_args("/m/repo", &init_args()), s(&["--repo", "/m/repo", "init"]));
}

#[test]
fn engine_binary_selection() {
    assert_eq!(Restic::select(Some("/opt/r"), None, Some("/usr/bin/restic".to_string())).unwrap().binary, "/opt/r");
    assert_eq!(Restic::select(None, Some("/b".to_string()), Some("/w".to_string())).unwrap().binary, "/b");
    assert_eq!(Restic::select(None, None, Some("/w".to_string())).unwrap().binary, "/w");
    assert_eq!(Restic::select(None, None, None).err(), Some(AgentError::Engine));
}

#[test]
fn progress_message_format() {
    assert_eq!(progress_message(50, 10, 200), "Backing up: 50% (10 / 200 files)");
    assert_eq!(progress_message(0, 0, 0), "Backing up: 0% (0 / 0 files)");
}
