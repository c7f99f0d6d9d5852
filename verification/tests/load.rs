use git_review::buf::Buffer;
use git_review::model::load::{
    branch_remote_key, current_branch_remote, default_remote_name, detect_default_branch,
    detect_remote_default_branch, normalize_default_branch, remote_from_upstream_branch,
    remote_head_ref, BranchError, CollectError, DiffEvent, PrintCollector, RemoteFacts,
};
use git_review::model::LineStatus;

#[test]
fn normalizes_cached_remote_head() {
    assert_eq!(
        normalize_default_branch("refs/remotes/origin/main", "origin").unwrap(),
        "origin/main"
    );
}

#[test]
fn normalizes_remote_default_branch() {
    assert_eq!(
        normalize_default_branch("refs/heads/main", "origin").unwrap(),
        "origin/main"
    );
}

#[test]
fn extracts_remote_from_upstream_branch() {
    assert_eq!(
        remote_from_upstream_branch("upstream/feature"),
        Some("upstream")
    );
    assert_eq!(remote_from_upstream_branch("origin/main"), Some("origin"));
    assert_eq!(remote_from_upstream_branch("main"), None);
}

#[test]
fn keeps_plain_default_branch_names() {
    assert_eq!(normalize_default_branch("trunk", "origin").unwrap(), "trunk");
    assert_eq!(
        normalize_default_branch("", "origin").unwrap_err(),
        BranchError::EmptyDefaultBranch
    );
}

#[test]
fn upstream_without_remote_part_has_no_remote() {
    assert_eq!(remote_from_upstream_branch("/main"), None);
    assert_eq!(remote_from_upstream_branch("a/b/c"), Some("a"));
}

#[test]
fn current_branch_remote_prefers_upstream() {
    assert_eq!(
        current_branch_remote(Some("upstream/feature"), Some("origin")).as_deref(),
        Some("upstream")
    );
    assert_eq!(
        current_branch_remote(Some("feature"), Some("fork")).as_deref(),
        Some("fork")
    );
    assert_eq!(current_branch_remote(None, Some(".")), None);
    assert_eq!(current_branch_remote(None, Some("")), None);
    assert_eq!(current_branch_remote(None, None), None);
}

#[test]
fn builds_setting_and_reference_names() {
    assert_eq!(branch_remote_key("main"), "branch.main.remote");
    assert_eq!(remote_head_ref("origin"), "refs/remotes/origin/HEAD");
    assert_eq!(default_remote_name(None), "origin");
    assert_eq!(default_remote_name(Some("fork".to_owned())), "fork");
}

fn facts(head_target: Option<&str>, advertised: Option<&[u8]>) -> RemoteFacts {
    RemoteFacts {
        head_target: head_target.map(|t| t.to_owned()),
        advertised: advertised.map(|a| a.to_vec()),
    }
}

#[test]
fn remote_default_branch_from_head_or_advertisement() {
    assert_eq!(
        detect_remote_default_branch(&facts(Some("refs/remotes/origin/main"), None), "origin").unwrap(),
        Some("origin/main".to_owned())
    );
    assert_eq!(
        detect_remote_default_branch(&facts(None, Some(b"refs/heads/dev")), "fork").unwrap(),
        Some("fork/dev".to_owned())
    );
    assert_eq!(
        detect_remote_default_branch(&facts(None, Some(&[0xff, 0xfe])), "fork").unwrap_err(),
        BranchError::InvalidUtf8
    );
    assert_eq!(detect_remote_default_branch(&facts(None, None), "fork").unwrap(), None);
}

#[test]
fn default_branch_falls_back_to_origin_then_local_branches() {
    let none = facts(None, None);
    let origin = facts(Some("refs/remotes/origin/main"), None);
    assert_eq!(
        detect_default_branch("fork", &none, &origin, false, false).unwrap(),
        "origin/main"
    );
    assert_eq!(
        detect_default_branch("origin", &none, &origin, true, false).unwrap(),
        "main"
    );
    assert_eq!(
        detect_default_branch("fork", &none, &none, false, true).unwrap(),
        "master"
    );
    assert_eq!(
        detect_default_branch("fork", &none, &none, false, false).unwrap_err(),
        BranchError::NotFound
    );
}

#[test]
fn collector_builds_files_and_hunks() {
    let mut collector = PrintCollector::new();
    let old = Buffer::buf(b"a\nb\n".to_vec());
    let new = Buffer::buf(b"a\nc\n".to_vec());
    collector
        .collect(DiffEvent::FileHeader {
            path: Some("src/lib.rs".to_owned()),
            old: Some(old),
            new: Some(new),
        })
        .unwrap();
    collector
        .collect(DiffEvent::HunkHeader {
            content: b"@@ -1,2 +1,2 @@\n".to_vec(),
        })
        .unwrap();
    collector
        .collect(DiffEvent::Line {
            status: LineStatus::Context,
            new_lineno: Some(1),
            old_lineno: Some(1),
        })
        .unwrap();
    collector
        .collect(DiffEvent::Line {
            status: LineStatus::Remove,
            new_lineno: None,
            old_lineno: Some(2),
        })
        .unwrap();
    collector
        .collect(DiffEvent::Line {
            status: LineStatus::Add,
            new_lineno: Some(2),
            old_lineno: None,
        })
        .unwrap();
    collector.collect(DiffEvent::NoNewline).unwrap();
    let entries = collector.finalize();
    assert_eq!(entries.len(), 1);
    assert_eq!(entries[0].path, "src/lib.rs");
    assert_eq!(entries[0].hunks.len(), 1);
    assert_eq!(entries[0].hunks[0].header, "@@ -1,2 +1,2 @@\n");
    let lines = &entries[0].hunks[0].lines;
    assert_eq!(lines.len(), 3);
    assert_eq!(lines[1].status, LineStatus::Remove);
    assert_eq!(lines[1].line, 2);
    assert_eq!(lines[2].line, 2);
    assert_eq!(entries[0].old.line(2), "b");
    assert_eq!(entries[0].new.line(2), "c");
}

#[test]
fn collector_finishes_a_file_when_the_next_starts() {
    let mut collector = PrintCollector::new();
    for name in ["a.rs", "b.rs"] {
        collector
            .collect(DiffEvent::FileHeader {
                path: Some(name.to_owned()),
                old: Some(Buffer::new()),
                new: Some(Buffer::new()),
            })
            .unwrap();
        collector
            .collect(DiffEvent::HunkHeader { content: b"@@".to_vec() })
            .unwrap();
        collector
            .collect(DiffEvent::Line {
                status: LineStatus::Add,
                new_lineno: Some(1),
                old_lineno: None,
            })
            .unwrap();
    }
    let entries = collector.finalize();
    assert_eq!(entries.len(), 2);
    assert_eq!(entries[0].path, "a.rs");
    assert_eq!(entries[1].path, "b.rs");
}

#[test]
fn collector_reports_missing_versions() {
    let mut collector = PrintCollector::new();
    assert_eq!(
        collector.collect(DiffEvent::FileHeader {
            path: Some("gone.rs".to_owned()),
            old: None,
            new: Some(Buffer::new()),
        }),
        Err(CollectError::OldFileMissing)
    );
    assert_eq!(
        collector.collect(DiffEvent::FileHeader {
            path: Some("gone.rs".to_owned()),
            old: Some(Buffer::new()),
            new: None,
        }),
        Err(CollectError::NewFileMissing)
    );
    let entries = collector.finalize();
    assert_eq!(entries.len(), 1);
    assert_eq!(entries[0].path, "gone.rs");
    assert!(entries[0].hunks.is_empty());
}

#[test]
fn collector_line_without_numbers_points_at_zero() {
    let mut collector = PrintCollector::new();
    collector
        .collect(DiffEvent::FileHeader {
            path: Some("bin".to_owned()),
            old: Some(Buffer::new()),
            new: Some(Buffer::new()),
        })
        .unwrap();
    collector
        .collect(DiffEvent::Line {
            status: LineStatus::Binary,
            new_lineno: None,
            old_lineno: None,
        })
        .unwrap();
    let entries = collector.finalize();
    assert_eq!(entries[0].hunks[0].lines[0].line, 0);
    assert_eq!(entries[0].hunks[0].header, "");
}

#[test]
fn collector_drops_a_hunk_without_lines() {
    let mut collector = PrintCollector::new();
    collector
        .collect(DiffEvent::FileHeader {
            path: Some("a.rs".to_owned()),
            old: Some(Buffer::new()),
            new: Some(Buffer::new()),
        })
        .unwrap();
    collector
        .collect(DiffEvent::HunkHeader { content: b"@@ -1 +1 @@".to_vec() })
        .unwrap();
    collector
        .collect(DiffEvent::HunkHeader { content: b"@@ -5 +5 @@".to_vec() })
        .unwrap();
    collector
        .collect(DiffEvent::Line {
            status: LineStatus::Add,
            new_lineno: Some(5),
            old_lineno: None,
        })
        .unwrap();
    collector
        .collect(DiffEvent::HunkHeader { content: b"@@ -9 +9 @@".to_vec() })
        .unwrap();
    let entries = collector.finalize();
    assert_eq!(entries.len(), 1);
    assert_eq!(entries[0].hunks.len(), 1);
    assert_eq!(entries[0].hunks[0].header, "@@ -5 +5 @@");
    assert!(entries[0].hunks.iter().all(|h| !h.lines.is_empty()));
}
