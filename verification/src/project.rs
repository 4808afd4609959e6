//! The project entity: one discovered project directory, its kind, the
//! artifact paths worth reclaiming beneath it, and the derived size,
//! size label and recency fields.

use vstd::prelude::*;

use crate::format::{bytes_to_string, spec_size_label};
use crate::fstree::{
    get_rm_size, lemma_rm_size_missing, modified_days_of, sat64, spec_lookup, spec_modified_days,
    spec_rm_size, FsNode,
};
use crate::strutil::{
    concat_paths, join_path, push_join_from, spec_join_from, spec_join_path,
};

verus! {

/// The closed set of recognized project kinds.
#[derive(Debug, Copy, Clone, PartialEq, Eq, Structural, PartialOrd, Ord)]
pub enum ProjectType {
    /// A Rust package with a `target` build directory.
    Cargo,
    /// A PHP package with a `vendor` dependency directory.
    Composer,
    /// A .NET project with `bin` and `obj` output directories.
    Dotnet,
    /// A Go module whose build outputs are binaries named after the directory.
    Golang,
    /// A Gradle project with a `build` output directory.
    Gradle,
    /// No specific kind matched, but a generic build-output directory exists;
    /// that directory's name is carried as the sole artifact path.
    Misc,
    /// An Elixir project with `_build` and `deps` directories.
    Mix,
    /// A Node package with a `node_modules` dependency directory.
    Node,
}

/// The display name of each kind.
pub open spec fn spec_type_name(t: ProjectType) -> Seq<char> {
    match t {
        ProjectType::Cargo => "Cargo"@,
        ProjectType::Composer => "Composer"@,
        ProjectType::Dotnet => "Dotnet"@,
        ProjectType::Golang => "Golang"@,
        ProjectType::Gradle => "Gradle"@,
        ProjectType::Misc => "Misc"@,
        ProjectType::Mix => "Mix"@,
        ProjectType::Node => "Node"@,
    }
}

/// One discovered project.
///
/// `path` is the project root as path components from the walk's root;
/// `rm_paths` are the artifact paths, each relative to `path`.  The derived
/// fields `rm_size`, `rm_size_str` and `last_modified` are computed from a
/// filesystem snapshot at construction and recomputed by [`Project::delete`],
/// never mutated independently.
pub struct Project {
    /// Root directory of the project, as path components.
    pub path: Vec<String>,
    /// The recognized kind.
    pub project_type: ProjectType,
    /// Artifact paths to reclaim, each relative to `path`.
    pub rm_paths: Vec<Vec<String>>,
    /// Reclaimable bytes beneath the artifact paths, at last computation.
    pub rm_size: u64,
    /// Human-readable form of `rm_size`, kept in step with it.
    pub rm_size_str: String,
    /// Whole days since the project root was last modified; `None` when the
    /// timestamp could not be read.
    pub last_modified: Option<u64>,
}

impl Project {
    /// Structural well-formedness: the size label renders the stored size,
    /// and a miscellaneous project has the matched directory as a usable
    /// artifact path.
    pub open spec fn wf(self) -> bool {
        &&& self.rm_size_str@ == spec_size_label(self.rm_size)
        &&& self.project_type == ProjectType::Misc ==> {
            &&& self.rm_paths.deep_view().len() >= 1
            &&& self.rm_paths.deep_view()[0].len() >= 1
        }
    }

    /// The derived fields agree with the snapshot `dir` of the project's
    /// root directory.
    pub open spec fn sized_against(self, dir: FsNode) -> bool {
        &&& self.rm_size as nat == sat64(spec_rm_size(dir, self.rm_paths.deep_view()))
        &&& self.rm_size_str@ == spec_size_label(self.rm_size)
        &&& self.last_modified == spec_modified_days(dir)
    }

    /// Builds a project record, computing the derived fields from the
    /// snapshot `dir` of the directory at `path`.
    pub fn new(path: Vec<String>, project_type: ProjectType, rm_paths: Vec<Vec<String>>, dir: &FsNode) -> (p:
        Project)
        requires
            project_type == ProjectType::Misc ==> rm_paths.deep_view().len() >= 1
                && rm_paths.deep_view()[0].len() >= 1,
        ensures
            p.path == path,
            p.project_type == project_type,
            p.rm_paths == rm_paths,
            p.wf(),
            p.sized_against(*dir),
    {
        let rm_size = get_rm_size(dir, &rm_paths);
        let rm_size_str = bytes_to_string(rm_size);
        let last_modified = modified_days_of(dir);
        Project { path, project_type, rm_paths, rm_size, rm_size_str, last_modified }
    }

    /// The artifact paths of each fixed-layout kind, relative to the project
    /// root.
    pub open spec fn spec_fixed_rm_paths(t: ProjectType) -> Seq<Seq<Seq<char>>>
        recommends
            t != ProjectType::Misc && t != ProjectType::Golang,
    {
        match t {
            ProjectType::Cargo => seq![seq!["target"@]],
            ProjectType::Composer => seq![seq!["vendor"@]],
            ProjectType::Dotnet => seq![seq!["bin"@], seq!["obj"@]],
            ProjectType::Gradle => seq![seq!["build"@]],
            ProjectType::Mix => seq![seq!["_build"@], seq!["deps"@]],
            ProjectType::Node => seq![seq!["node_modules"@]],
            _ => seq![],
        }
    }

    /// A Rust package: the artifact is its `target` directory.
    pub fn cargo(path: Vec<String>, dir: &FsNode) -> (p: Project)
        ensures
            p.path == path,
            p.project_type == ProjectType::Cargo,
            p.rm_paths.deep_view() =~~= Self::spec_fixed_rm_paths(ProjectType::Cargo),
            p.wf(),
            p.sized_against(*dir),
    {
        let mut rel: Vec<String> = Vec::new();
        rel.push(String::from_str("target"));
        let mut rm_paths: Vec<Vec<String>> = Vec::new();
        rm_paths.push(rel);
        proof {
            assert(rm_paths.deep_view() =~~= Self::spec_fixed_rm_paths(ProjectType::Cargo));
        }
        Project::new(path, ProjectType::Cargo, rm_paths, dir)
    }

    /// A PHP package: the artifact is its `vendor` directory.
    pub fn composer(path: Vec<String>, dir: &FsNode) -> (p: Project)
        ensures
            p.path == path,
            p.project_type == ProjectType::Composer,
            p.rm_paths.deep_view() =~~= Self::spec_fixed_rm_paths(ProjectType::Composer),
            p.wf(),
            p.sized_against(*dir),
    {
        let mut rel: Vec<String> = Vec::new();
        rel.push(String::from_str("vendor"));
        let mut rm_paths: Vec<Vec<String>> = Vec::new();
        rm_paths.push(rel);
        proof {
            assert(rm_paths.deep_view() =~~= Self::spec_fixed_rm_paths(ProjectType::Composer));
        }
        Project::new(path, ProjectType::Composer, rm_paths, dir)
    }

    /// A .NET project: the artifacts are its `bin` and `obj` directories.
    pub fn dotnet(path: Vec<String>, dir: &FsNode) -> (p: Project)
        ensures
            p.path == path,
            p.project_type == ProjectType::Dotnet,
            p.rm_paths.deep_view() =~~= Self::spec_fixed_rm_paths(ProjectType::Dotnet),
            p.wf(),
            p.sized_against(*dir),
    {
        let mut rel_bin: Vec<String> = Vec::new();
        rel_bin.push(String::from_str("bin"));
        let mut rel_obj: Vec<String> = Vec::new();
        rel_obj.push(String::from_str("obj"));
        let mut rm_paths: Vec<Vec<String>> = Vec::new();
        rm_paths.push(rel_bin);
        rm_paths.push(rel_obj);
        proof {
            assert(rm_paths.deep_view() =~~= Self::spec_fixed_rm_paths(ProjectType::Dotnet));
        }
        Project::new(path, ProjectType::Dotnet, rm_paths, dir)
    }

    /// A Gradle project: the artifact is its `build` directory.
    pub fn gradle(path: Vec<String>, dir: &FsNode) -> (p: Project)
        ensures
            p.path == path,
            p.project_type == ProjectType::Gradle,
            p.rm_paths.deep_view() =~~= Self::spec_fixed_rm_paths(ProjectType::Gradle),
            p.wf(),
            p.sized_against(*dir),
    {
        let mut rel: Vec<String> = Vec::new();
        rel.push(String::from_str("build"));
        let mut rm_paths: Vec<Vec<String>> = Vec::new();
        rm_paths.push(rel);
        proof {
            assert(rm_paths.deep_view() =~~= Self::spec_fixed_rm_paths(ProjectType::Gradle));
        }
        Project::new(path, ProjectType::Gradle, rm_paths, dir)
    }

    /// An Elixir project: the artifacts are its `_build` and `deps`
    /// directories.
    pub fn mix(path: Vec<String>, dir: &FsNode) -> (p: Project)
        ensures
            p.path == path,
            p.project_type == ProjectType::Mix,
            p.rm_paths.deep_view() =~~= Self::spec_fixed_rm_paths(ProjectType::Mix),
            p.wf(),
            p.sized_against(*dir),
    {
        let mut rel_build: Vec<String> = Vec::new();
        rel_build.push(String::from_str("_build"));
        let mut rel_deps: Vec<String> = Vec::new();
        rel_deps.push(String::from_str("deps"));
        let mut rm_paths: Vec<Vec<String>> = Vec::new();
        rm_paths.push(rel_build);
        rm_paths.push(rel_deps);
        proof {
            assert(rm_paths.deep_view() =~~= Self::spec_fixed_rm_paths(ProjectType::Mix));
        }
        Project::new(path, ProjectType::Mix, rm_paths, dir)
    }

    /// A Node package: the artifact is its `node_modules` directory.
    pub fn node(path: Vec<String>, dir: &FsNode) -> (p: Project)
        ensures
            p.path == path,
            p.project_type == ProjectType::Node,
            p.rm_paths.deep_view() =~~= Self::spec_fixed_rm_paths(ProjectType::Node),
            p.wf(),
            p.sized_against(*dir),
    {
        let mut rel: Vec<String> = Vec::new();
        rel.push(String::from_str("node_modules"));
        let mut rm_paths: Vec<Vec<String>> = Vec::new();
        rm_paths.push(rel);
        proof {
            assert(rm_paths.deep_view() =~~= Self::spec_fixed_rm_paths(ProjectType::Node));
        }
        Project::new(path, ProjectType::Node, rm_paths, dir)
    }

    /// The artifact paths of a Go module: the build outputs are a binary
    /// named after the project directory and its `.test` companion.
    pub open spec fn spec_golang_rm_paths(dir_name: Seq<char>) -> Seq<Seq<Seq<char>>> {
        seq![seq![dir_name], seq![dir_name + ".test"@]]
    }

    /// A Go module: the artifacts are the binary named after the project
    /// directory and its `.test` companion.
    pub fn golang(path: Vec<String>, dir: &FsNode) -> (p: Project)
        requires
            path@.len() > 0,
        ensures
            p.path == path,
            p.project_type == ProjectType::Golang,
            p.rm_paths.deep_view() =~~= Self::spec_golang_rm_paths(
                path.deep_view()[path.deep_view().len() - 1],
            ),
            p.wf(),
            p.sized_against(*dir),
    {
        let name: &String = &path[path.len() - 1];
        let mut rel_bin: Vec<String> = Vec::new();
        rel_bin.push(name.clone());
        let mut test_name: String = name.clone();
        test_name.append(".test");
        let mut rel_test: Vec<String> = Vec::new();
        rel_test.push(test_name);
        let mut rm_paths: Vec<Vec<String>> = Vec::new();
        rm_paths.push(rel_bin);
        rm_paths.push(rel_test);
        proof {
            assert(rm_paths.deep_view() =~~= Self::spec_golang_rm_paths(
                path.deep_view()[path.deep_view().len() - 1],
            ));
        }
        Project::new(path, ProjectType::Golang, rm_paths, dir)
    }

    /// Is this project due for unattended cleanup?  Only projects with
    /// something to reclaim, a readable timestamp, and at least
    /// `threshold` days since their last modification are cleaned without
    /// being asked.
    pub fn should_auto_clean(&self, threshold: u64) -> (r: bool)
        ensures
            r == (self.rm_size != 0 && match self.last_modified {
                Some(days) => days >= threshold,
                None => false,
            }),
    {
        if self.rm_size == 0 {
            return false;
        }
        match self.last_modified {
            Some(days) => days >= threshold,
            None => false,
        }
    }

    /// The project root joined into one display string.
    pub fn path_string(&self) -> (r: String)
        ensures
            r@ == spec_join_path(self.path.deep_view()),
    {
        join_path(&self.path)
    }

    /// The project root, shortened to its last `truncate_to` components with
    /// a `../` prefix when it is longer than that.
    pub fn trunc_path_string(&self, truncate_to: usize) -> (r: String)
        ensures
            truncate_to >= self.path@.len() ==> r@ == spec_join_path(self.path.deep_view()),
            truncate_to < self.path@.len() ==> r@ == "../"@ + spec_join_from(
                self.path.deep_view(),
                self.path@.len() - truncate_to,
            ),
    {
        if truncate_to >= self.path.len() {
            join_path(&self.path)
        } else {
            let mut s = String::from_str("../");
            push_join_from(&self.path, self.path.len() - truncate_to, &mut s);
            s
        }
    }

    /// The display string of the project's kind; a miscellaneous project
    /// shows the name of its matched build-output directory.
    pub fn type_string(&self) -> (r: String)
        requires
            self.wf(),
        ensures
            r@ == spec_type_string(*self),
    {
        if matches!(self.project_type, ProjectType::Misc) {
            let rel: &Vec<String> = &self.rm_paths[0];
            let name: &String = &rel[rel.len() - 1];
            let mut s = String::from_str("Misc (");
            s.append(name.as_str());
            s.append(")");
            proof {
                assert(self.rm_paths.deep_view()[0] == rel.deep_view());
                assert(rel.deep_view()[rel@.len() - 1] == name@);
                assert(s@ =~= spec_type_string(*self));
            }
            s
        } else {
            match self.project_type {
                ProjectType::Cargo => String::from_str("Cargo"),
                ProjectType::Composer => String::from_str("Composer"),
                ProjectType::Dotnet => String::from_str("Dotnet"),
                ProjectType::Golang => String::from_str("Golang"),
                ProjectType::Gradle => String::from_str("Gradle"),
                ProjectType::Misc => String::from_str("Misc"),
                ProjectType::Mix => String::from_str("Mix"),
                ProjectType::Node => String::from_str("Node"),
            }
        }
    }

    /// Applies the outcome of one removal attempt per artifact path:
    /// concatenates the per-path report lines and recomputes the derived
    /// fields from `dir`, the snapshot of the project root after the
    /// attempts — even when every removal failed, so that stale values are
    /// never kept.  Returns `None` exactly when there was no artifact path
    /// to attempt.
    pub fn delete(&mut self, outcomes: &Vec<RemoveOutcome>, dir: &FsNode) -> (r: Option<String>)
        requires
            outcomes@.len() == old(self).rm_paths@.len(),
        ensures
            final(self).path == old(self).path,
            final(self).project_type == old(self).project_type,
            final(self).rm_paths == old(self).rm_paths,
            final(self).sized_against(*dir),
            old(self).wf() ==> final(self).wf(),
            r is Some <==> old(self).rm_paths@.len() > 0,
            r is Some ==> r->0@ == spec_report(
                old(self).path.deep_view(),
                old(self).rm_paths.deep_view(),
                outcomes@,
            ),
    {
        let mut msg = String::new();
        push_report_from(&self.path, &self.rm_paths, outcomes, 0, &mut msg);
        self.rm_size = get_rm_size(dir, &self.rm_paths);
        self.rm_size_str = bytes_to_string(self.rm_size);
        self.last_modified = modified_days_of(dir);
        if self.rm_paths.len() == 0 {
            None
        } else {
            proof {
                assert(msg@ =~= spec_report(
                    old(self).path.deep_view(),
                    old(self).rm_paths.deep_view(),
                    outcomes@,
                ));
            }
            Some(msg)
        }
    }

    /// A project of no specific kind, carrying the matched generic
    /// build-output directory as its artifact path.
    pub fn misc(path: Vec<String>, rm_paths: Vec<Vec<String>>, dir: &FsNode) -> (p: Project)
        requires
            rm_paths.deep_view().len() >= 1,
            rm_paths.deep_view()[0].len() >= 1,
        ensures
            p.path == path,
            p.project_type == ProjectType::Misc,
            p.rm_paths == rm_paths,
            p.wf(),
            p.sized_against(*dir),
    {
        Project::new(path, ProjectType::Misc, rm_paths, dir)
    }
}

/// The mathematical content of a [`Project`]: the same fields, with views in
/// place of the executable containers.
pub ghost struct ProjectView {
    /// View of [`Project::path`].
    pub path: Seq<Seq<char>>,
    /// The recognized kind.
    pub project_type: ProjectType,
    /// View of [`Project::rm_paths`].
    pub rm_paths: Seq<Seq<Seq<char>>>,
    /// The stored reclaimable size.
    pub rm_size: u64,
    /// View of the size label.
    pub rm_size_str: Seq<char>,
    /// Days since last modification.
    pub last_modified: Option<u64>,
}

impl View for Project {
    type V = ProjectView;

    open spec fn view(&self) -> ProjectView {
        ProjectView {
            path: self.path.deep_view(),
            project_type: self.project_type,
            rm_paths: self.rm_paths.deep_view(),
            rm_size: self.rm_size,
            rm_size_str: self.rm_size_str@,
            last_modified: self.last_modified,
        }
    }
}

/// The project record a walk produces at `path` for a directory snapshot
/// `dir`, of kind `t` with artifact paths `rels`: the derived fields all
/// follow from the snapshot.
pub open spec fn spec_project_at(
    dir: FsNode,
    path: Seq<Seq<char>>,
    t: ProjectType,
    rels: Seq<Seq<Seq<char>>>,
) -> ProjectView {
    ProjectView {
        path: path,
        project_type: t,
        rm_paths: rels,
        rm_size: sat64(spec_rm_size(dir, rels)) as u64,
        rm_size_str: spec_size_label(sat64(spec_rm_size(dir, rels)) as u64),
        last_modified: spec_modified_days(dir),
    }
}

/// What the surrounding binary reports about one removal attempt.
pub enum RemoveOutcome {
    /// The artifact path was removed.
    Removed,
    /// The attempt failed, with its cause in words.
    Failed(String),
}

/// The display string of a project's kind: its name, with the matched
/// directory in parentheses for a miscellaneous project.
pub open spec fn spec_type_string(p: Project) -> Seq<char> {
    if p.project_type == ProjectType::Misc {
        "Misc ("@ + p.rm_paths.deep_view()[0].last() + ")"@
    } else {
        spec_type_name(p.project_type)
    }
}

/// The report line for one removal attempt on the artifact at `full`.
pub open spec fn spec_report_line(full: Seq<char>, oc: RemoveOutcome) -> Seq<char> {
    match oc {
        RemoveOutcome::Removed => "Removed "@ + full,
        RemoveOutcome::Failed(cause) => "Unable to remove "@ + full + ": "@ + cause@,
    }
}

/// The delete report from artifact path `i` on: one line per path, the
/// path shown joined beneath the project root, lines joined with newlines
/// and no trailing newline.
pub open spec fn spec_report_from(
    base: Seq<Seq<char>>,
    rels: Seq<Seq<Seq<char>>>,
    ocs: Seq<RemoveOutcome>,
    i: int,
) -> Seq<char>
    decreases rels.len() - i,
{
    if i < 0 || i >= rels.len() {
        Seq::empty()
    } else {
        let line = spec_report_line(spec_join_path(base + rels[i]), ocs[i]);
        if i == rels.len() - 1 {
            line
        } else {
            line + seq!['\n'] + spec_report_from(base, rels, ocs, i + 1)
        }
    }
}

/// The whole delete report.
pub open spec fn spec_report(
    base: Seq<Seq<char>>,
    rels: Seq<Seq<Seq<char>>>,
    ocs: Seq<RemoveOutcome>,
) -> Seq<char> {
    spec_report_from(base, rels, ocs, 0)
}

/// Appends the report lines from artifact path `i` on to `s`.
fn push_report_from(
    base: &Vec<String>,
    rels: &Vec<Vec<String>>,
    outcomes: &Vec<RemoveOutcome>,
    i: usize,
    s: &mut String,
)
    requires
        outcomes@.len() == rels@.len(),
        i <= rels@.len(),
    ensures
        final(s)@ == old(s)@ + spec_report_from(
            base.deep_view(),
            rels.deep_view(),
            outcomes@,
            i as int,
        ),
    decreases rels@.len() - i,
{
    if i >= rels.len() {
        proof {
            assert(s@ =~= old(s)@ + spec_report_from(
                base.deep_view(),
                rels.deep_view(),
                outcomes@,
                i as int,
            ));
        }
        return;
    }
    let full = concat_paths(base, &rels[i]);
    let jp = join_path(&full);
    proof {
        assert(rels.deep_view()[i as int] == rels@[i as int].deep_view());
        assert(jp@ == spec_join_path(base.deep_view() + rels.deep_view()[i as int]));
        reveal_strlit("Removed ");
        reveal_strlit("Unable to remove ");
        reveal_strlit(": ");
        reveal_strlit("\n");
        assert("\n"@ =~= seq!['\n']);
    }
    match &outcomes[i] {
        RemoveOutcome::Removed => {
            s.append("Removed ");
            s.append(jp.as_str());
        },
        RemoveOutcome::Failed(cause) => {
            s.append("Unable to remove ");
            s.append(jp.as_str());
            s.append(": ");
            s.append(cause.as_str());
        },
    }
    if i + 1 < rels.len() {
        s.append("\n");
        push_report_from(base, rels, outcomes, i + 1, s);
    }
    proof {
        assert(s@ =~= old(s)@ + spec_report_from(
            base.deep_view(),
            rels.deep_view(),
            outcomes@,
            i as int,
        ));
    }
}

/// Once the artifact paths of a correctly sized project all fail to resolve
/// in the snapshot — the artifacts are already gone — the project's
/// reclaimable size is zero.  Deleting such a project recomputes zero, and
/// deleting it again against the same snapshot keeps it zero: the size
/// converges to zero and stays there.
pub proof fn lemma_delete_converges(p: Project, dir: FsNode)
    requires
        p.sized_against(dir),
        forall|k: int|
            0 <= k < p.rm_paths.deep_view().len() ==> spec_lookup(
                dir,
                #[trigger] p.rm_paths.deep_view()[k],
            ) is None,
    ensures
        p.rm_size == 0,
        spec_rm_size(dir, p.rm_paths.deep_view()) == 0,
{
    lemma_rm_size_missing(dir, p.rm_paths.deep_view());
}

} // verus!
