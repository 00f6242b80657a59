use nedots::copy::{classify_dir, copy, copy_warnings, plan_node, CopyOp, NodePlan, NodeProbe};
use nedots::errors::Error;

#[test]
fn metadata_answer_wins_over_the_fallback() {
    assert!(classify_dir(Some(true), false));
    assert!(!classify_dir(Some(false), true));
    assert!(classify_dir(None, true));
    assert!(!classify_dir(None, false));
}

#[test]
fn a_non_directory_node_yields_exactly_its_own_operation() {
    let planned = plan_node("src/a.txt", "dst/a.txt", NodeProbe::NotDir).unwrap();
    match planned {
        NodePlan::Leaf(op) => {
            assert_eq!(op.from, "src/a.txt");
            assert_eq!(op.to, "dst/a.txt");
        }
        other => panic!("expected a leaf, got {:?}", other),
    }
}

#[test]
fn a_directory_node_yields_one_child_pair_per_entry_in_order() {
    let probe = NodeProbe::Dir {
        entries: vec![String::from("a.txt"), String::from("sub")],
    };
    let planned = plan_node("src", "dst", probe).unwrap();
    match planned {
        NodePlan::Children(pairs) => {
            assert_eq!(pairs.len(), 2);
            assert_eq!(pairs[0].from, "src/a.txt");
            assert_eq!(pairs[0].to, "dst/a.txt");
            assert_eq!(pairs[1].from, "src/sub");
            assert_eq!(pairs[1].to, "dst/sub");
        }
        other => panic!("expected child pairs, got {:?}", other),
    }
}

#[test]
fn an_unreadable_directory_aborts_the_branch_with_its_error() {
    let probe = NodeProbe::DirUnreadable { err: String::from("permission denied") };
    let planned = plan_node("src", "dst", probe);
    match planned.unwrap_err() {
        Error::IoError(m) => assert_eq!(m, "permission denied"),
        other => panic!("unexpected error {:?}", other),
    }
}

#[test]
fn copying_a_file_plans_a_single_leaf() {
    // Planning only reads the filesystem; the destination need not exist.
    let ops = copy("Cargo.toml", "/nonexistent-target/Cargo.toml").unwrap();
    assert_eq!(ops.len(), 1);
    assert_eq!(ops[0].from, "Cargo.toml");
    assert_eq!(ops[0].to, "/nonexistent-target/Cargo.toml");
}

#[test]
fn copying_a_missing_path_plans_a_single_leaf() {
    // A path that is not a directory — here, one that does not exist at
    // all — is treated as a leaf; only its execution would fail, and a
    // leaf failure is contained.
    let ops = copy("no-such-file.txt", "/tmp/no-such-file.txt").unwrap();
    assert_eq!(ops.len(), 1);
    assert_eq!(ops[0].from, "no-such-file.txt");
}

#[test]
fn copying_a_tree_mirrors_its_structure() {
    // The crate's own source directory serves as a real tree.
    let ops = copy("src", "/nonexistent-target/src").unwrap();
    assert!(!ops.is_empty());
    for op in &ops {
        assert!(op.from.starts_with("src/"));
        assert!(op.to.starts_with("/nonexistent-target/src/"));
        let from_rel = &op.from["src".len()..];
        let to_rel = &op.to["/nonexistent-target/src".len()..];
        assert_eq!(from_rel, to_rel);
    }
    assert!(ops.iter().any(|op| op.from == "src/lib.rs"
        && op.to == "/nonexistent-target/src/lib.rs"));
}

#[test]
fn leaf_failures_become_warnings_not_errors() {
    // Two planned leaves; the second could not be executed. The run still
    // reports success — `copy_warnings` can only hand back warnings — and
    // the failed leaf is named.
    let ops = vec![
        CopyOp { from: String::from("src/a.txt"), to: String::from("dst/a.txt") },
        CopyOp {
            from: String::from("src/sub/locked.txt"),
            to: String::from("dst/sub/locked.txt"),
        },
    ];
    let results = vec![None, Some(String::from("permission denied"))];
    let warnings = copy_warnings(&ops, &results);
    assert_eq!(warnings.len(), 1);
    assert_eq!(warnings[0], "Couldn't copy src/sub/locked.txt (permission denied)");
}

#[test]
fn a_clean_run_produces_no_warnings() {
    let ops = vec![CopyOp { from: String::from("a"), to: String::from("b") }];
    let results = vec![None];
    assert!(copy_warnings(&ops, &results).is_empty());
}
