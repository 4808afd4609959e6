use polykill::fstree::{FsEntry, FsNode};
use polykill::project::ProjectType;
use polykill::project_types::{
    classify, is_cargo, is_composer, is_dotnet, is_golang, is_gradle, is_mix, is_node, is_repo,
    misc_marker,
};
use polykill::search::{contains_entry, contains_entry_with_suffix};

fn file(size: u64) -> FsNode {
    FsNode::File { size }
}

fn dir(entries: Vec<(&str, FsNode)>) -> FsNode {
    FsNode::Dir {
        modified_days: Some(0),
        entries: entries
            .into_iter()
            .map(|(name, node)| FsEntry { name: String::from(name), node })
            .collect(),
    }
}

#[test]
fn markers_match_their_kind() {
    assert!(is_cargo(&dir(vec![("Cargo.toml", file(10))])));
    assert!(is_node(&dir(vec![("package.json", file(10))])));
    assert!(is_composer(&dir(vec![("composer.json", file(10))])));
    assert!(is_mix(&dir(vec![("mix.exs", file(10))])));
    assert!(is_golang(&dir(vec![("go.mod", file(10))])));
    assert!(is_gradle(&dir(vec![("build.gradle", file(10))])));
    assert!(is_dotnet(&dir(vec![("App.csproj", file(10))])));
    assert!(!is_dotnet(&dir(vec![("csproj", file(10))])));
    assert!(!is_cargo(&dir(vec![("cargo.toml", file(10))])));
}

#[test]
fn repo_markers() {
    assert!(is_repo(&dir(vec![(".git", dir(vec![]))])));
    assert!(is_repo(&dir(vec![(".svn", dir(vec![]))])));
    assert!(is_repo(&dir(vec![(".hg", dir(vec![]))])));
    assert!(!is_repo(&dir(vec![("git", dir(vec![]))])));
}

#[test]
fn specific_kind_wins_over_misc() {
    // Both a specific manifest and a generic build directory: the specific
    // kind wins, never the miscellaneous fallback.
    let d = dir(vec![("Cargo.toml", file(5)), ("build", dir(vec![]))]);
    assert_eq!(classify(&d), Some(ProjectType::Cargo));
}

#[test]
fn priority_order_is_fixed() {
    let d = dir(vec![("package.json", file(1)), ("Cargo.toml", file(1))]);
    assert_eq!(classify(&d), Some(ProjectType::Cargo));
    let d = dir(vec![("mix.exs", file(1)), ("package.json", file(1))]);
    assert_eq!(classify(&d), Some(ProjectType::Node));
    let d = dir(vec![("build.gradle", file(1)), ("mix.exs", file(1))]);
    assert_eq!(classify(&d), Some(ProjectType::Mix));
}

#[test]
fn misc_marker_order() {
    let d = dir(vec![("dist", dir(vec![])), ("bin", dir(vec![]))]);
    assert_eq!(misc_marker(&d), Some("bin"));
    assert_eq!(classify(&d), Some(ProjectType::Misc));
    let d = dir(vec![("dist", dir(vec![])), ("build", dir(vec![]))]);
    assert_eq!(misc_marker(&d), Some("build"));
    let d = dir(vec![("dist", dir(vec![]))]);
    assert_eq!(misc_marker(&d), Some("dist"));
}

#[test]
fn unmarked_directory_is_unclassified() {
    let d = dir(vec![("src", dir(vec![])), ("README.md", file(3))]);
    assert_eq!(classify(&d), None);
}

#[test]
fn entry_lookup_and_suffix_scan() {
    let d = dir(vec![("a.txt", file(1)), ("b.csproj", file(2))]);
    assert!(contains_entry(&d, "a.txt"));
    assert!(!contains_entry(&d, "c.txt"));
    assert!(contains_entry_with_suffix(&d, ".csproj"));
    assert!(!contains_entry_with_suffix(&d, ".fsproj"));
    assert!(!contains_entry(&file(1), "a.txt"));
}
