use polykill::fstree::{FsEntry, FsNode};
use polykill::project::ProjectType;
use polykill::search::{find_git_projects, find_projects};

fn file(size: u64) -> FsNode {
    FsNode::File { size }
}

fn dir(entries: Vec<(&str, FsNode)>) -> FsNode {
    FsNode::Dir {
        modified_days: Some(0),
        entries: entries
            .into_iter()
            .map(|(name, node)| FsEntry { name: String::from(name), node })
            .collect(),
    }
}

fn path(components: Vec<&str>) -> Vec<String> {
    components.into_iter().map(String::from).collect()
}

#[test]
fn depth_zero_finds_nothing() {
    let root = dir(vec![("proj", dir(vec![("Cargo.toml", file(1))]))]);
    let found = find_projects(&root, &path(vec![]), 0);
    assert!(found.is_empty());
}

#[test]
fn vcs_walk_finds_repo_project() {
    // root/proj/.git, root/proj/Cargo.toml, root/proj/target/file of
    // 2000 bytes: one Cargo project with 2000 reclaimable bytes.
    let root = dir(vec![(
        "proj",
        dir(vec![
            (".git", dir(vec![])),
            ("Cargo.toml", file(50)),
            ("target", dir(vec![("data.bin", file(2000))])),
        ]),
    )]);
    let found = find_git_projects(&root, &path(vec![]));
    assert_eq!(found.len(), 1);
    let p = &found[0];
    assert_eq!(p.path, path(vec!["proj"]));
    assert_eq!(p.project_type, ProjectType::Cargo);
    assert_eq!(p.rm_paths, vec![path(vec!["target"])]);
    assert_eq!(p.rm_size, 2000);
    assert_eq!(p.rm_size_str, "2.0 KB");
}

#[test]
fn bare_repo_without_markers_yields_nothing() {
    // root/a/.git with no build-tool marker and nothing nested: the
    // fallback search is exhausted and the walk does not descend further
    // beneath the repository root.
    let root = dir(vec![(
        "a",
        dir(vec![(".git", dir(vec![])), ("notes", dir(vec![("x", file(9))]))]),
    )]);
    let found = find_git_projects(&root, &path(vec![]));
    assert!(found.is_empty());
}

#[test]
fn repo_fallback_finds_nested_project() {
    // A monorepo: the repository root itself has no marker, the buildable
    // unit sits one level below and is found by the fallback search.
    let root = dir(vec![(
        "mono",
        dir(vec![
            (".git", dir(vec![])),
            ("web", dir(vec![("package.json", file(2)), ("node_modules", dir(vec![("m", file(700))]))])),
        ]),
    )]);
    let found = find_git_projects(&root, &path(vec![]));
    assert_eq!(found.len(), 1);
    assert_eq!(found[0].path, path(vec!["mono", "web"]));
    assert_eq!(found[0].project_type, ProjectType::Node);
    assert_eq!(found[0].rm_size, 700);
}

#[test]
fn artifact_directory_is_not_a_second_project() {
    // The project's own build directory carries a marker-like child, but
    // the walk never descends into a recognized project.
    let root = dir(vec![(
        "proj",
        dir(vec![
            ("Cargo.toml", file(1)),
            ("target", dir(vec![("bin", dir(vec![("x", file(10))]))])),
        ]),
    )]);
    let found = find_projects(&root, &path(vec![]), 10);
    assert_eq!(found.len(), 1);
    assert_eq!(found[0].path, path(vec!["proj"]));
    assert_eq!(found[0].project_type, ProjectType::Cargo);
}

#[test]
fn hidden_directories_are_skipped() {
    let root = dir(vec![(".cache", dir(vec![("Cargo.toml", file(1))]))]);
    let found = find_projects(&root, &path(vec![]), 10);
    assert!(found.is_empty());
}

#[test]
fn depth_bound_limits_descent() {
    let root = dir(vec![(
        "a",
        dir(vec![("b", dir(vec![("c", dir(vec![("Cargo.toml", file(1))]))]))]),
    )]);
    assert_eq!(find_projects(&root, &path(vec![]), 3).len(), 1);
    assert_eq!(find_projects(&root, &path(vec![]), 2).len(), 0);
}

#[test]
fn projects_outside_repos_are_not_classified_by_vcs_walk() {
    let root = dir(vec![("plain", dir(vec![("Cargo.toml", file(1))]))]);
    let found = find_git_projects(&root, &path(vec![]));
    assert!(found.is_empty());
}

#[test]
fn no_projects_found() {
    let root = dir(vec![("empty", dir(vec![]))]);
    assert!(find_git_projects(&root, &path(vec!["."])).is_empty());
    assert!(find_projects(&root, &path(vec!["."]), 10).is_empty());
}

#[test]
fn project_found() {
    // A repository with only a generic build-output directory is still a
    // project: the miscellaneous kind, carrying that directory's name.
    let root = dir(vec![(
        "test_proj",
        dir(vec![(".git", dir(vec![])), ("bin", dir(vec![("b", file(11))]))]),
    )]);
    let found = find_git_projects(&root, &path(vec!["."]));
    assert_eq!(found.len(), 1);
    assert_eq!(found[0].project_type, ProjectType::Misc);
    assert_eq!(found[0].path, path(vec![".", "test_proj"]));
    assert_eq!(found[0].rm_paths, vec![path(vec!["bin"])]);
    assert_eq!(found[0].rm_size, 11);
    assert_eq!(found[0].type_string(), "Misc (bin)");
}

#[test]
fn walk_collects_in_listing_order() {
    let root = dir(vec![
        ("one", dir(vec![("mix.exs", file(1))])),
        ("two", dir(vec![("go.mod", file(1))])),
    ]);
    let found = find_projects(&root, &path(vec![]), 5);
    assert_eq!(found.len(), 2);
    assert_eq!(found[0].path, path(vec!["one"]));
    assert_eq!(found[0].project_type, ProjectType::Mix);
    assert_eq!(found[1].path, path(vec!["two"]));
    assert_eq!(found[1].project_type, ProjectType::Golang);
}
