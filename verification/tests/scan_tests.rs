use detective::DetectiveError;
use detective::FsEntry;
use detective::ResolutionResult;
use detective::resolve_reference;
use detective::run_scan;

fn file(name: &str, content: &str) -> FsEntry {
    FsEntry::File { name: name.to_string(), content: content.to_string() }
}

fn dir(name: &str, entries: Vec<FsEntry>) -> FsEntry {
    FsEntry::Dir { name: name.to_string(), entries }
}

fn targets(names: &[&str]) -> Vec<String> {
    names.iter().map(|n| n.to_string()).collect()
}

#[test]
fn test_recurse_scan_no_panic() {
    let root = dir(".", vec![dir("src", vec![file("other.c", "")])]);
    let result = run_scan(Some(&root), &targets(&["test_file.c"]));
    let reports = result.expect("scan of a plain tree succeeds");
    assert_eq!(reports.len(), 0);
}

#[test]
fn scenario_local_dep_found_and_missing_dep_reported() {
    let root = dir(
        "project",
        vec![file("dep.h", ""), dir(
            "src",
            vec![file("main.c", "#include \"dep.h\"\n#include \"missing.h\""), file(
                "dep.h",
                "",
            )],
        )],
    );
    let reports = run_scan(Some(&root), &targets(&["main.c"])).unwrap();
    assert_eq!(reports.len(), 1);
    assert_eq!(reports[0].path, vec!["src".to_string(), "main.c".to_string()]);
    let deps = &reports[0].dependencies;
    assert_eq!(deps.len(), 2);
    assert_eq!(deps[0].reference, "dep.h");
    assert_eq!(deps[0].status, ResolutionResult::ResolvedLocal);
    assert_eq!(deps[1].reference, "missing.h");
    assert_eq!(deps[1].status, ResolutionResult::Missing);
}

#[test]
fn hidden_directory_subtree_is_never_reported() {
    let root = dir(
        "project",
        vec![
            dir(".git", vec![file("main.c", "#include \"a.h\"")]),
            dir(".hidden", vec![dir("inner", vec![file("main.c", "#include \"a.h\"")])]),
            dir("src", vec![file("main.c", "")]),
        ],
    );
    let reports = run_scan(Some(&root), &targets(&["main.c"])).unwrap();
    assert_eq!(reports.len(), 1);
    assert_eq!(reports[0].path, vec!["src".to_string(), "main.c".to_string()]);
}

#[test]
fn global_resolution_falls_back_to_the_project_root() {
    let root = dir(
        "project",
        vec![file("shared.h", ""), dir("src", vec![file("main.c", "#include \"shared.h\"")])],
    );
    let reports = run_scan(Some(&root), &targets(&["main.c"])).unwrap();
    assert_eq!(reports[0].dependencies[0].status, ResolutionResult::ResolvedGlobal);
}

#[test]
fn local_existence_wins_over_global() {
    let current = vec![file("dep.h", "local")];
    let root = vec![file("dep.h", "global")];
    let status = resolve_reference("dep.h", &current, &root);
    assert_eq!(status, ResolutionResult::ResolvedLocal);
}

#[test]
fn missing_when_neither_candidate_exists() {
    let current = vec![file("a.h", "")];
    let root = vec![file("b.h", "")];
    let status = resolve_reference("dep.h", &current, &root);
    assert_eq!(status, ResolutionResult::Missing);
}

#[test]
fn references_with_separators_walk_the_tree() {
    let current = vec![dir("sub", vec![file("x.h", "")])];
    let root: Vec<FsEntry> = vec![];
    assert_eq!(resolve_reference("sub/x.h", &current, &root), ResolutionResult::ResolvedLocal);
    assert_eq!(resolve_reference("sub/y.h", &current, &root), ResolutionResult::Missing);
}

#[test]
fn scanning_twice_yields_identical_results() {
    let root = dir(
        "project",
        vec![file("dep.h", ""), dir("src", vec![file("main.c", "#include \"dep.h\"")])],
    );
    let t = targets(&["main.c"]);
    let first = run_scan(Some(&root), &t);
    let second = run_scan(Some(&root), &t);
    assert_eq!(first, second);
}

#[test]
fn absent_root_aborts_with_root_not_found() {
    let result = run_scan(None, &targets(&["main.c"]));
    assert_eq!(result, Err(DetectiveError::RootNotFound));
}

#[test]
fn root_that_is_not_a_directory_aborts_with_io_error() {
    let root = file("main.c", "#include \"dep.h\"");
    let result = run_scan(Some(&root), &targets(&["main.c"]));
    assert_eq!(result, Err(DetectiveError::IoError));
}

#[test]
fn a_directory_named_like_a_target_is_recursed_not_scanned() {
    let root = dir("project", vec![dir("main.c", vec![file("other.h", "")])]);
    let reports = run_scan(Some(&root), &targets(&["main.c"])).unwrap();
    assert_eq!(reports.len(), 0);
}

#[test]
fn entries_that_are_neither_files_nor_directories_are_ignored() {
    let root = dir("project", vec![FsEntry::Other { name: "main.c".to_string() }]);
    let reports = run_scan(Some(&root), &targets(&["main.c"])).unwrap();
    assert_eq!(reports.len(), 0);
}

#[test]
fn reports_follow_entry_order_depth_first() {
    let root = dir(
        "project",
        vec![
            dir("a", vec![file("main.c", ""), dir("nested", vec![file("main.c", "")])]),
            file("main.c", ""),
        ],
    );
    let reports = run_scan(Some(&root), &targets(&["main.c"])).unwrap();
    let paths: Vec<Vec<String>> = reports.iter().map(|r| r.path.clone()).collect();
    assert_eq!(
        paths,
        vec![
            vec!["a".to_string(), "main.c".to_string()],
            vec!["a".to_string(), "nested".to_string(), "main.c".to_string()],
            vec!["main.c".to_string()],
        ]
    );
}

#[test]
fn multiple_target_names_are_all_scanned() {
    let root = dir("project", vec![file("main.c", ""), file("lib.c", ""), file("skip.c", "")]);
    let reports = run_scan(Some(&root), &targets(&["main.c", "lib.c"])).unwrap();
    assert_eq!(reports.len(), 2);
}
