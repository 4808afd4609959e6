use polykill::fstree::{compute_size, get_rm_size, FsEntry, FsNode};
use polykill::project::{Project, ProjectType, RemoveOutcome};

fn file(size: u64) -> FsNode {
    FsNode::File { size }
}

fn dir(entries: Vec<(&str, FsNode)>) -> FsNode {
    FsNode::Dir {
        modified_days: Some(3),
        entries: entries
            .into_iter()
            .map(|(name, node)| FsEntry { name: String::from(name), node })
            .collect(),
    }
}

fn path(components: Vec<&str>) -> Vec<String> {
    components.into_iter().map(String::from).collect()
}

#[test]
fn sizes_sum_recursively() {
    let tree = dir(vec![
        ("a", file(10)),
        ("sub", dir(vec![("b", file(20)), ("deeper", dir(vec![("c", file(30))]))])),
    ]);
    assert_eq!(compute_size(&tree), 60);
}

#[test]
fn missing_paths_contribute_zero() {
    let d = dir(vec![("present", file(40))]);
    let rm_paths = vec![path(vec!["absent"]), path(vec!["also", "absent"])];
    assert_eq!(get_rm_size(&d, &rm_paths), 0);
    let both = vec![path(vec!["present"]), path(vec!["absent"])];
    assert_eq!(get_rm_size(&d, &both), 40);
}

#[test]
fn construction_computes_derived_fields() {
    let d = dir(vec![("target", dir(vec![("obj", file(1500))])), ("Cargo.toml", file(5))]);
    let p = Project::cargo(path(vec!["r", "proj"]), &d);
    assert_eq!(p.project_type, ProjectType::Cargo);
    assert_eq!(p.rm_paths, vec![path(vec!["target"])]);
    assert_eq!(p.rm_size, 1500);
    assert_eq!(p.rm_size_str, "1.5 KB");
    assert_eq!(p.last_modified, Some(3));
}

#[test]
fn golang_artifacts_are_named_after_the_directory() {
    let d = dir(vec![("go.mod", file(1))]);
    let p = Project::golang(path(vec!["w", "tool"]), &d);
    assert_eq!(p.rm_paths, vec![path(vec!["tool"]), path(vec!["tool.test"])]);
}

#[test]
fn dotnet_and_mix_have_two_artifact_paths() {
    let d = dir(vec![]);
    let p = Project::dotnet(path(vec!["p"]), &d);
    assert_eq!(p.rm_paths, vec![path(vec!["bin"]), path(vec!["obj"])]);
    let p = Project::mix(path(vec!["p"]), &d);
    assert_eq!(p.rm_paths, vec![path(vec!["_build"]), path(vec!["deps"])]);
}

#[test]
fn delete_reports_and_refreshes() {
    let before = dir(vec![("node_modules", dir(vec![("m", file(2000))]))]);
    let mut p = Project::node(path(vec!["app"]), &before);
    assert_eq!(p.rm_size, 2000);
    // The artifacts are gone from the snapshot after a successful removal.
    let after = dir(vec![]);
    let outcomes = vec![RemoveOutcome::Removed];
    let report = p.delete(&outcomes, &after);
    assert_eq!(report, Some(String::from("Removed app/node_modules")));
    assert_eq!(p.rm_size, 0);
    assert_eq!(p.rm_size_str, "0  B");
}

#[test]
fn delete_twice_converges_to_zero() {
    let before = dir(vec![("vendor", dir(vec![("v", file(500))]))]);
    let mut p = Project::composer(path(vec!["site"]), &before);
    let after = dir(vec![]);
    let report = p.delete(&vec![RemoveOutcome::Removed], &after);
    assert!(report.is_some());
    assert_eq!(p.rm_size, 0);
    // Deleting again: the artifacts are already gone, every attempt fails,
    // the report says so, and the size stays zero.
    let report2 = p.delete(
        &vec![RemoveOutcome::Failed(String::from("no such file"))],
        &after,
    );
    assert_eq!(
        report2,
        Some(String::from("Unable to remove site/vendor: no such file"))
    );
    assert_eq!(p.rm_size, 0);
    assert_eq!(p.rm_size_str, "0  B");
}

#[test]
fn delete_report_joins_lines_without_trailing_newline() {
    let d = dir(vec![("bin", dir(vec![("x", file(1))])), ("obj", dir(vec![]))]);
    let mut p = Project::dotnet(path(vec!["s"]), &d);
    let outcomes = vec![
        RemoveOutcome::Removed,
        RemoveOutcome::Failed(String::from("denied")),
    ];
    let report = p.delete(&outcomes, &d);
    assert_eq!(
        report,
        Some(String::from("Removed s/bin\nUnable to remove s/obj: denied"))
    );
}

#[test]
fn delete_with_no_artifact_paths_reports_nothing() {
    let d = dir(vec![]);
    let mut p = Project::new(path(vec!["p"]), ProjectType::Gradle, vec![], &d);
    let report = p.delete(&vec![], &d);
    assert_eq!(report, None);
}

#[test]
fn display_strings() {
    let d = dir(vec![]);
    let p = Project::cargo(path(vec!["home", "me", "code", "thing"]), &d);
    assert_eq!(p.path_string(), "home/me/code/thing");
    assert_eq!(p.trunc_path_string(3), "../me/code/thing");
    assert_eq!(p.trunc_path_string(4), "home/me/code/thing");
    assert_eq!(p.trunc_path_string(9), "home/me/code/thing");
    assert_eq!(p.type_string(), "Cargo");
    let m = Project::misc(path(vec!["p"]), vec![path(vec!["dist"])], &d);
    assert_eq!(m.type_string(), "Misc (dist)");
}

#[test]
fn auto_cleanup_wants_old_nonempty_projects() {
    let d = dir(vec![("target", dir(vec![("x", file(10))]))]);
    let p = Project::cargo(path(vec!["p"]), &d);
    // last_modified is 3 days in these snapshots.
    assert!(p.should_auto_clean(3));
    assert!(p.should_auto_clean(0));
    assert!(!p.should_auto_clean(4));
    let empty = Project::cargo(path(vec!["p"]), &dir(vec![]));
    assert!(!empty.should_auto_clean(0));
    let unknown = Project::cargo(
        path(vec!["p"]),
        &FsNode::Dir {
            modified_days: None,
            entries: vec![FsEntry {
                name: String::from("target"),
                node: file(10),
            }],
        },
    );
    assert!(!unknown.should_auto_clean(0));
}

#[test]
fn unreadable_timestamp_becomes_unknown() {
    let d = FsNode::Dir { modified_days: None, entries: vec![] };
    let p = Project::gradle(path(vec!["p"]), &d);
    assert_eq!(p.last_modified, None);
}
