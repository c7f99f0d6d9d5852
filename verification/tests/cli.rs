use git_review::cli::{Cli, DiffMode, DiffModeError, Revision};

#[test]
fn defaults_to_working_tree_diff() {
    let mode = Cli {
        staged: false,
        default_branch: false,
        rev: None,
    }
    .diff_mode()
    .unwrap();

    assert_eq!(mode, DiffMode::WorkingTree);
}

#[test]
fn supports_staged_diff() {
    let mode = Cli {
        staged: true,
        default_branch: false,
        rev: None,
    }
    .diff_mode()
    .unwrap();

    assert_eq!(mode, DiffMode::Staged);
}

#[test]
fn supports_default_branch_diff() {
    let mode = Cli {
        staged: false,
        default_branch: true,
        rev: None,
    }
    .diff_mode()
    .unwrap();

    assert_eq!(mode, DiffMode::DefaultBranch);
}

#[test]
fn supports_revision_diff() {
    let mode = Cli {
        staged: false,
        default_branch: false,
        rev: Some("main..feature".parse().unwrap()),
    }
    .diff_mode()
    .unwrap();

    assert_eq!(
        mode,
        DiffMode::Revision(Revision::Range("main".to_owned(), "feature".to_owned()))
    );
}

#[test]
fn cli_rejects_conflicting_diff_modes() {
    let staged_with_rev = Cli {
        staged: true,
        default_branch: false,
        rev: Some("HEAD~1".parse().unwrap()),
    };
    assert!(staged_with_rev.diff_mode().is_err());
    let default_with_rev = Cli {
        staged: false,
        default_branch: true,
        rev: Some("HEAD~1".parse().unwrap()),
    };
    assert!(default_with_rev.diff_mode().is_err());
    let staged_with_default = Cli {
        staged: true,
        default_branch: true,
        rev: None,
    };
    assert!(staged_with_default.diff_mode().is_err());
}

#[test]
fn rejects_staged_with_revision() {
    let error = Cli {
        staged: true,
        default_branch: false,
        rev: Some("HEAD~1".parse().unwrap()),
    }
    .diff_mode()
    .unwrap_err();

    assert!(error.message().contains("--staged cannot be combined"));
}

#[test]
fn models_single_revision() {
    assert_eq!(
        "HEAD~1".parse::<Revision>().unwrap(),
        Revision::Commitish("HEAD~1".to_owned())
    );
}

#[test]
fn rejects_invalid_range() {
    assert_eq!(
        "main..".parse::<Revision>().unwrap_err(),
        "range must be in the form <base>..<head>"
    );
}

#[test]
fn rejects_triple_dot_range() {
    assert_eq!(
        "main...feature".parse::<Revision>().unwrap_err(),
        "triple-dot ranges are not supported yet; use <base>..<head>"
    );
}

#[test]
fn rejects_range_without_base() {
    assert_eq!(
        "..feature".parse::<Revision>().unwrap_err(),
        "range must be in the form <base>..<head>"
    );
}

#[test]
fn splits_range_at_first_double_dot() {
    assert_eq!(
        Revision::parse("a..b..c").unwrap(),
        Revision::Range("a".to_owned(), "b..c".to_owned())
    );
}

#[test]
fn revision_accessors() {
    let range = Revision::parse("main..feature").unwrap();
    assert_eq!(range.range(), Some(("main", "feature")));
    assert_eq!(range.commitish(), None);
    let single = Revision::parse("HEAD~1").unwrap();
    assert_eq!(single.commitish(), Some("HEAD~1"));
    assert_eq!(single.range(), None);
}

#[test]
fn revision_text_round_trips() {
    for raw in ["main..feature", "HEAD~1", "a..b..c"] {
        let rev = Revision::parse(raw).unwrap();
        assert_eq!(rev.to_text(), raw);
        assert_eq!(Revision::parse(&rev.to_text()).unwrap(), rev);
    }
}

#[test]
fn conflict_messages() {
    assert_eq!(
        DiffModeError::DefaultBranchWithRevision.message(),
        "--default-branch cannot be combined with a revision or range"
    );
    assert_eq!(
        DiffModeError::StagedWithDefaultBranch.message(),
        "--staged cannot be combined with --default-branch"
    );
    let both = Cli {
        staged: true,
        default_branch: true,
        rev: Some("HEAD".parse().unwrap()),
    };
    assert_eq!(both.diff_mode().unwrap_err(), DiffModeError::StagedWithRevision);
}
