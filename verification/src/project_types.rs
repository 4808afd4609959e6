//! The classifier: marker tests over a directory snapshot, and the fixed
//! priority order that assigns a directory its project kind.
//!
//! A marker test is either the presence of a directory entry with a known
//! name (a package manifest), or — where no single well-known filename
//! exists — the presence of an entry whose name ends in a known suffix.
//! A directory matching no specific kind but holding a generic build-output
//! directory is classified as miscellaneous, carrying that directory's name.

use vstd::prelude::*;

use crate::fstree::{spec_child, FsNode};
use crate::project::ProjectType;
use crate::search::{contains_entry, contains_entry_with_suffix};
use crate::strutil::is_suffix_of;

verus! {

/// The directory snapshot has an entry of exactly this name.
pub open spec fn spec_has_entry(dir: FsNode, name: Seq<char>) -> bool {
    dir is Dir && spec_child(dir->Dir_entries@, name) is Some
}

/// The directory snapshot has an entry whose name ends with `suffix`.
pub open spec fn spec_has_entry_with_suffix(dir: FsNode, suffix: Seq<char>) -> bool {
    dir is Dir && exists|k: int|
        0 <= k < dir->Dir_entries@.len() && is_suffix_of(
            suffix,
            #[trigger] dir->Dir_entries@[k].name@,
        )
}

/// Marker of a Node package: a `package.json` manifest.
pub open spec fn spec_is_node(dir: FsNode) -> bool {
    spec_has_entry(dir, "package.json"@)
}

/// Marker of a Rust package: a `Cargo.toml` manifest.
pub open spec fn spec_is_cargo(dir: FsNode) -> bool {
    spec_has_entry(dir, "Cargo.toml"@)
}

/// Marker of a PHP package: a `composer.json` manifest.
pub open spec fn spec_is_composer(dir: FsNode) -> bool {
    spec_has_entry(dir, "composer.json"@)
}

/// Marker of an Elixir project: a `mix.exs` file.
pub open spec fn spec_is_mix(dir: FsNode) -> bool {
    spec_has_entry(dir, "mix.exs"@)
}

/// Marker of a .NET project: the project file's name is project-specific,
/// so any entry ending in `.csproj` counts.
pub open spec fn spec_is_dotnet(dir: FsNode) -> bool {
    spec_has_entry_with_suffix(dir, ".csproj"@)
}

/// Marker of a Go module: a `go.mod` file.
pub open spec fn spec_is_golang(dir: FsNode) -> bool {
    spec_has_entry(dir, "go.mod"@)
}

/// Marker of a Gradle project: a `build.gradle` file.
pub open spec fn spec_is_gradle(dir: FsNode) -> bool {
    spec_has_entry(dir, "build.gradle"@)
}

/// Marker of a version-control repository root: metadata of one of the
/// supported systems.
pub open spec fn spec_is_repo(dir: FsNode) -> bool {
    spec_has_entry(dir, ".git"@) || spec_has_entry(dir, ".svn"@) || spec_has_entry(dir, ".hg"@)
}

/// The first generic build-output directory name present, if any: the
/// miscellaneous marker, tried in the fixed order `bin`, `build`, `dist`.
pub open spec fn spec_misc_marker(dir: FsNode) -> Option<Seq<char>> {
    if spec_has_entry(dir, "bin"@) {
        Some("bin"@)
    } else if spec_has_entry(dir, "build"@) {
        Some("build"@)
    } else if spec_has_entry(dir, "dist"@) {
        Some("dist"@)
    } else {
        None
    }
}

/// The kind the classifier assigns: the first matching marker test in the
/// fixed priority order, with the miscellaneous fallback last.  The order
/// is part of the specification: a directory carrying several markers gets
/// the kind of the earliest one, and never Misc while a specific marker
/// matches.
pub open spec fn spec_classify(dir: FsNode) -> Option<ProjectType> {
    if spec_is_cargo(dir) {
        Some(ProjectType::Cargo)
    } else if spec_is_node(dir) {
        Some(ProjectType::Node)
    } else if spec_is_composer(dir) {
        Some(ProjectType::Composer)
    } else if spec_is_dotnet(dir) {
        Some(ProjectType::Dotnet)
    } else if spec_is_golang(dir) {
        Some(ProjectType::Golang)
    } else if spec_is_mix(dir) {
        Some(ProjectType::Mix)
    } else if spec_is_gradle(dir) {
        Some(ProjectType::Gradle)
    } else if spec_misc_marker(dir) is Some {
        Some(ProjectType::Misc)
    } else {
        None
    }
}

/// Does the snapshot carry a Node package manifest?
pub fn is_node(dir: &FsNode) -> (r: bool)
    ensures
        r == spec_is_node(*dir),
{
    contains_entry(dir, "package.json")
}

/// Does the snapshot carry a Rust package manifest?
pub fn is_cargo(dir: &FsNode) -> (r: bool)
    ensures
        r == spec_is_cargo(*dir),
{
    contains_entry(dir, "Cargo.toml")
}

/// Does the snapshot carry a PHP package manifest?
pub fn is_composer(dir: &FsNode) -> (r: bool)
    ensures
        r == spec_is_composer(*dir),
{
    contains_entry(dir, "composer.json")
}

/// Does the snapshot carry an Elixir project file?
pub fn is_mix(dir: &FsNode) -> (r: bool)
    ensures
        r == spec_is_mix(*dir),
{
    contains_entry(dir, "mix.exs")
}

/// Does the snapshot carry a .NET project file?
pub fn is_dotnet(dir: &FsNode) -> (r: bool)
    ensures
        r == spec_is_dotnet(*dir),
{
    contains_entry_with_suffix(dir, ".csproj")
}

/// Does the snapshot carry a Go module file?
pub fn is_golang(dir: &FsNode) -> (r: bool)
    ensures
        r == spec_is_golang(*dir),
{
    contains_entry(dir, "go.mod")
}

/// Does the snapshot carry a Gradle build file?
pub fn is_gradle(dir: &FsNode) -> (r: bool)
    ensures
        r == spec_is_gradle(*dir),
{
    contains_entry(dir, "build.gradle")
}

/// Is the snapshot the root of a version-control repository?
pub fn is_repo(dir: &FsNode) -> (r: bool)
    ensures
        r == spec_is_repo(*dir),
{
    contains_entry(dir, ".git") || contains_entry(dir, ".svn") || contains_entry(dir, ".hg")
}

/// The first generic build-output directory name present, if any.
pub fn misc_marker(dir: &FsNode) -> (r: Option<&'static str>)
    ensures
        match r {
            Some(name) => spec_misc_marker(*dir) == Some(name@),
            None => spec_misc_marker(*dir) is None,
        },
{
    if contains_entry(dir, "bin") {
        Some("bin")
    } else if contains_entry(dir, "build") {
        Some("build")
    } else if contains_entry(dir, "dist") {
        Some("dist")
    } else {
        None
    }
}

/// Classifies a directory snapshot, as [`spec_classify`] describes.
pub fn classify(dir: &FsNode) -> (r: Option<ProjectType>)
    ensures
        r == spec_classify(*dir),
{
    if is_cargo(dir) {
        Some(ProjectType::Cargo)
    } else if is_node(dir) {
        Some(ProjectType::Node)
    } else if is_composer(dir) {
        Some(ProjectType::Composer)
    } else if is_dotnet(dir) {
        Some(ProjectType::Dotnet)
    } else if is_golang(dir) {
        Some(ProjectType::Golang)
    } else if is_mix(dir) {
        Some(ProjectType::Mix)
    } else if is_gradle(dir) {
        Some(ProjectType::Gradle)
    } else if misc_marker(dir).is_some() {
        Some(ProjectType::Misc)
    } else {
        None
    }
}

/// The classifier resolves every directory to at most one kind, chosen by
/// the fixed priority order: when several markers coexist the earliest
/// specific kind wins, and the miscellaneous fallback is assigned only when
/// no specific marker matches at all.
pub proof fn lemma_classify_priority(dir: FsNode)
    ensures
        spec_is_cargo(dir) ==> spec_classify(dir) == Some(ProjectType::Cargo),
        spec_classify(dir) == Some(ProjectType::Misc) ==> !spec_is_cargo(dir) && !spec_is_node(dir)
            && !spec_is_composer(dir) && !spec_is_dotnet(dir) && !spec_is_golang(dir)
            && !spec_is_mix(dir) && !spec_is_gradle(dir) && spec_misc_marker(dir) is Some,
        spec_classify(dir) is Some <==> spec_is_cargo(dir) || spec_is_node(dir)
            || spec_is_composer(dir) || spec_is_dotnet(dir) || spec_is_golang(dir) || spec_is_mix(
            dir,
        ) || spec_is_gradle(dir) || spec_misc_marker(dir) is Some,
{
}

} // verus!
