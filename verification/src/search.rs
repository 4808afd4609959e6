//! The walker: recursive traversal of a filesystem snapshot that discovers
//! project directories, in two modes — a version-control-aware search with
//! no depth bound, and a plain depth-bounded search.

use vstd::prelude::*;

use crate::fstree::{child_of, fs_wf, is_dir, FsEntry, FsNode};
use crate::project::{spec_project_at, Project, ProjectType, ProjectView};
use crate::project_types::{classify, is_repo, misc_marker, spec_classify, spec_is_repo, spec_misc_marker};
use crate::strutil::{clone_path, is_hidden_name, is_suffix_of, path_push, spec_hidden, str_ends_with};

verus! {

/// Does the directory snapshot hold an entry of exactly this name?
pub fn contains_entry(dir: &FsNode, entry: &str) -> (r: bool)
    ensures
        r == crate::project_types::spec_has_entry(*dir, entry@),
{
    match dir {
        FsNode::File { .. } => false,
        FsNode::Dir { entries, .. } => child_of(entries, entry).is_some(),
    }
}

/// Does the directory snapshot hold an entry whose name ends with `suffix`?
#[verifier::loop_isolation(false)]
pub fn contains_entry_with_suffix(dir: &FsNode, suffix: &str) -> (r: bool)
    ensures
        r == crate::project_types::spec_has_entry_with_suffix(*dir, suffix@),
{
    match dir {
        FsNode::File { .. } => false,
        FsNode::Dir { entries, .. } => {
            let mut i: usize = 0;
            while i < entries.len()
                invariant
                    0 <= i <= entries.len(),
                    forall|k: int| 0 <= k < i ==> !is_suffix_of(suffix@, #[trigger] entries@[k].name@),
                decreases entries.len() - i,
            {
                if str_ends_with(entries[i].name.as_str(), suffix) {
                    proof {
                        assert(is_suffix_of(suffix@, dir->Dir_entries@[i as int].name@));
                    }
                    return true;
                }
                i = i + 1;
            }
            false
        },
    }
}

/// The project record the walker makes of a classified directory at
/// `path`, or `None` when the classifier matches nothing there.
pub open spec fn spec_check_for_project(dir: FsNode, path: Seq<Seq<char>>) -> Option<ProjectView>
    recommends
        path.len() > 0,
{
    match spec_classify(dir) {
        None => None,
        Some(t) => {
            let rels = if t == ProjectType::Golang {
                Project::spec_golang_rm_paths(path.last())
            } else if t == ProjectType::Misc {
                seq![seq![spec_misc_marker(dir)->0]]
            } else {
                Project::spec_fixed_rm_paths(t)
            };
            Some(spec_project_at(dir, path, t, rels))
        },
    }
}

/// Classifies one directory snapshot and, when a kind matches, builds the
/// project record for it, with the artifact paths of that kind.
pub fn check_for_project(dir: &FsNode, path: &Vec<String>) -> (r: Option<Project>)
    requires
        path@.len() > 0,
    ensures
        match r {
            Some(p) => spec_check_for_project(*dir, path.deep_view()) == Some(p@) && p.wf(),
            None => spec_check_for_project(*dir, path.deep_view()) is None,
        },
{
    proof {
        assert(path.deep_view().len() == path@.len());
    }
    match classify(dir) {
        None => None,
        Some(t) => match t {
            ProjectType::Cargo => Some(Project::cargo(clone_path(path), dir)),
            ProjectType::Composer => Some(Project::composer(clone_path(path), dir)),
            ProjectType::Dotnet => Some(Project::dotnet(clone_path(path), dir)),
            ProjectType::Golang => {
                proof {
                    assert(path.deep_view().last() == path@[path@.len() - 1]@);
                }
                Some(Project::golang(clone_path(path), dir))
            },
            ProjectType::Gradle => Some(Project::gradle(clone_path(path), dir)),
            ProjectType::Mix => Some(Project::mix(clone_path(path), dir)),
            ProjectType::Node => Some(Project::node(clone_path(path), dir)),
            ProjectType::Misc => {
                match misc_marker(dir) {
                    Some(name) => {
                        let mut rel: Vec<String> = Vec::new();
                        rel.push(String::from_str(name));
                        let mut rm_paths: Vec<Vec<String>> = Vec::new();
                        rm_paths.push(rel);
                        proof {
                            assert(rm_paths.deep_view() =~~= seq![seq![spec_misc_marker(*dir)->0]]);
                        }
                        Some(Project::misc(clone_path(path), rm_paths, dir))
                    },
                    None => {
                        proof {
                            assert(false);
                        }
                        None
                    },
                }
            },
        },
    }
}

/// The views of a list of discovered projects.
pub open spec fn pviews(s: Seq<Project>) -> Seq<ProjectView> {
    s.map_values(|p: Project| p@)
}

/// The depth-bounded walk below the node `dir` standing at `path`: nothing
/// at depth zero, else the walk over the directory's entries in order.
pub open spec fn spec_find_projects(dir: FsNode, path: Seq<Seq<char>>, depth: nat) -> Seq<
    ProjectView,
>
    decreases depth, dir,
{
    if depth == 0 {
        Seq::empty()
    } else {
        match dir {
            FsNode::File { .. } => Seq::empty(),
            FsNode::Dir { entries, .. } => spec_walk_entries(entries@, path, depth),
        }
    }
}

/// The depth-bounded walk over a directory's entries, in order.  Hidden
/// names and files are skipped; a classified child directory yields its
/// project record and is not descended into; an unclassified one is walked
/// one level deeper.
pub open spec fn spec_walk_entries(
    entries: Seq<FsEntry>,
    path: Seq<Seq<char>>,
    depth: nat,
) -> Seq<ProjectView>
    decreases depth, entries,
{
    if depth == 0 || entries.len() == 0 {
        Seq::empty()
    } else {
        let e = entries[0];
        let head = if e.node is Dir && !spec_hidden(e.name@) {
            match spec_check_for_project(e.node, path.push(e.name@)) {
                Some(pv) => seq![pv],
                None => spec_find_projects(e.node, path.push(e.name@), (depth - 1) as nat),
            }
        } else {
            Seq::empty()
        };
        head + spec_walk_entries(entries.drop_first(), path, depth)
    }
}

/// Plain recursive descent, bounded by `max_depth` levels: discovers every
/// project [`spec_find_projects`] describes, in traversal order.  A depth
/// of zero returns nothing whatever the tree holds, and a recognized
/// project's interior — its artifact directories included — is never
/// walked, so never yields a nested project.
#[verifier::loop_isolation(false)]
pub fn find_projects(dir: &FsNode, path: &Vec<String>, max_depth: u32) -> (r: Vec<Project>)
    ensures
        pviews(r@) == spec_find_projects(*dir, path.deep_view(), max_depth as nat),
        max_depth == 0 ==> r@.len() == 0,
        forall|k: int| 0 <= k < r@.len() ==> (#[trigger] r@[k]).wf(),
    decreases max_depth,
{
    let mut projects: Vec<Project> = Vec::new();
    if max_depth == 0 {
        proof {
            assert(pviews(projects@) =~= spec_find_projects(*dir, path.deep_view(), 0));
        }
        return projects;
    }
    match dir {
        FsNode::File { .. } => {
            proof {
                assert(pviews(projects@) =~= spec_find_projects(
                    *dir,
                    path.deep_view(),
                    max_depth as nat,
                ));
            }
            projects
        },
        FsNode::Dir { entries, .. } => {
            let ghost pathv = path.deep_view();
            let ghost depth = max_depth as nat;
            let mut i: usize = 0;
            proof {
                assert(entries@.skip(0) =~= entries@);
            }
            while i < entries.len()
                invariant
                    0 <= i <= entries.len(),
                    pviews(projects@) + spec_walk_entries(entries@.skip(i as int), pathv, depth)
                        == spec_walk_entries(entries@, pathv, depth),
                    forall|k: int| 0 <= k < projects@.len() ==> (#[trigger] projects@[k]).wf(),
                decreases entries.len() - i,
            {
                let ghost head = spec_walk_entries(entries@.skip(i as int), pathv, depth);
                proof {
                    assert(entries@.skip(i as int)[0] == entries@[i as int]);
                    assert(entries@.skip(i as int).drop_first() =~= entries@.skip(i as int + 1));
                }
                let e = &entries[i];
                if is_dir(&e.node) && !is_hidden_name(e.name.as_str()) {
                    let child_path = path_push(path, &e.name);
                    proof {
                        assert(child_path.deep_view() == pathv.push(e.name@));
                        assert(child_path@.len() > 0);
                    }
                    match check_for_project(&e.node, &child_path) {
                        Some(p) => {
                            projects.push(p);
                            proof {
                                assert(pviews(projects@) =~= pviews(projects@.drop_last()) + seq![
                                    p@,
                                ]);
                            }
                        },
                        None => {
                            let mut sub = find_projects(&e.node, &child_path, max_depth - 1);
                            proof {
                                let ghost before = projects@;
                                let ghost subv = sub@;
                                assert(pviews(before + subv) =~= pviews(before) + pviews(subv));
                            }
                            projects.append(&mut sub);
                        },
                    }
                }
                i = i + 1;
            }
            proof {
                assert(entries@.skip(entries@.len() as int) =~= Seq::<FsEntry>::empty());
                assert(spec_walk_entries(Seq::<FsEntry>::empty(), pathv, depth) =~= Seq::<
                    ProjectView,
                >::empty());
                assert(pviews(projects@) =~= spec_find_projects(*dir, pathv, depth));
            }
            projects
        },
    }
}

/// Depth of the fallback search below a repository root that the
/// classifier does not match itself: the buildable unit of a monorepo is
/// looked for one or two levels further down.
pub const GIT_FALLBACK_DEPTH: u32 = 2;

/// The version-control-aware walk below `dir` standing at `path`.
pub open spec fn spec_find_git_projects(dir: FsNode, path: Seq<Seq<char>>) -> Seq<ProjectView>
    decreases dir, 0nat,
{
    match dir {
        FsNode::File { .. } => Seq::empty(),
        FsNode::Dir { entries, .. } => spec_git_entries(entries@, path),
    }
}

/// The version-control-aware walk over a directory's entries, in order.
/// Hidden names and files are skipped.  A child that carries a repository
/// marker is classified there; if nothing matches, a fallback search of
/// fixed depth [`GIT_FALLBACK_DEPTH`] runs beneath it, and the walk does
/// not descend further below that repository root.  A child without a
/// repository marker is walked deeper, unclassified, looking for one.
pub open spec fn spec_git_entries(entries: Seq<FsEntry>, path: Seq<Seq<char>>) -> Seq<ProjectView>
    decreases entries, 1nat,
{
    if entries.len() == 0 {
        Seq::empty()
    } else {
        let e = entries[0];
        let head = if e.node is Dir && !spec_hidden(e.name@) {
            if spec_is_repo(e.node) {
                match spec_check_for_project(e.node, path.push(e.name@)) {
                    Some(pv) => seq![pv],
                    None => spec_find_projects(
                        e.node,
                        path.push(e.name@),
                        GIT_FALLBACK_DEPTH as nat,
                    ),
                }
            } else {
                spec_find_git_projects(e.node, path.push(e.name@))
            }
        } else {
            Seq::empty()
        };
        head + spec_git_entries(entries.drop_first(), path)
    }
}

/// Recursive descent with no depth bound, gated on version control:
/// discovers every project [`spec_find_git_projects`] describes, in
/// traversal order.  Directories outside a repository are never
/// classified, and a recognized project's interior is never walked.
#[verifier::loop_isolation(false)]
pub fn find_git_projects(dir: &FsNode, path: &Vec<String>) -> (r: Vec<Project>)
    ensures
        pviews(r@) == spec_find_git_projects(*dir, path.deep_view()),
        forall|k: int| 0 <= k < r@.len() ==> (#[trigger] r@[k]).wf(),
    decreases *dir,
{
    let mut projects: Vec<Project> = Vec::new();
    match dir {
        FsNode::File { .. } => {
            proof {
                assert(pviews(projects@) =~= spec_find_git_projects(*dir, path.deep_view()));
            }
            projects
        },
        FsNode::Dir { entries, .. } => {
            let ghost pathv = path.deep_view();
            let mut i: usize = 0;
            proof {
                assert(entries@.skip(0) =~= entries@);
            }
            while i < entries.len()
                invariant
                    0 <= i <= entries.len(),
                    pviews(projects@) + spec_git_entries(entries@.skip(i as int), pathv)
                        == spec_git_entries(entries@, pathv),
                    forall|k: int| 0 <= k < projects@.len() ==> (#[trigger] projects@[k]).wf(),
                decreases entries.len() - i,
            {
                proof {
                    assert(entries@.skip(i as int)[0] == entries@[i as int]);
                    assert(entries@.skip(i as int).drop_first() =~= entries@.skip(i as int + 1));
                }
                let e = &entries[i];
                if is_dir(&e.node) && !is_hidden_name(e.name.as_str()) {
                    let child_path = path_push(path, &e.name);
                    proof {
                        assert(child_path.deep_view() == pathv.push(e.name@));
                        assert(child_path@.len() > 0);
                    }
                    if is_repo(&e.node) {
                        match check_for_project(&e.node, &child_path) {
                            Some(p) => {
                                projects.push(p);
                                proof {
                                    assert(pviews(projects@) =~= pviews(projects@.drop_last())
                                        + seq![p@]);
                                }
                            },
                            None => {
                                let mut sub = find_projects(&e.node, &child_path, GIT_FALLBACK_DEPTH);
                                proof {
                                    assert(pviews(projects@ + sub@) =~= pviews(projects@) + pviews(
                                        sub@,
                                    ));
                                }
                                projects.append(&mut sub);
                            },
                        }
                    } else {
                        proof {
                            assert(decreases_to!(*dir => entries@[i as int].node));
                        }
                        let mut sub = find_git_projects(&e.node, &child_path);
                        proof {
                            assert(pviews(projects@ + sub@) =~= pviews(projects@) + pviews(sub@));
                        }
                        projects.append(&mut sub);
                    }
                }
                i = i + 1;
            }
            proof {
                assert(entries@.skip(entries@.len() as int) =~= Seq::<FsEntry>::empty());
                assert(spec_git_entries(Seq::<FsEntry>::empty(), pathv) =~= Seq::<
                    ProjectView,
                >::empty());
                assert(pviews(projects@) =~= spec_find_git_projects(*dir, pathv));
            }
            projects
        },
    }
}

/// `a` is a strict prefix of `b` as a component list: `b` lies strictly
/// below `a` in the tree.
pub open spec fn is_strict_prefix(a: Seq<Seq<char>>, b: Seq<Seq<char>>) -> bool {
    a.len() < b.len() && a == b.take(a.len() as int)
}

/// The project lies strictly below `path`.
pub open spec fn rooted_strictly_below(pv: ProjectView, path: Seq<Seq<char>>) -> bool {
    pv.path.len() > path.len() && pv.path.take(path.len() as int) == path
}

/// The first component of the project's path below `path` is the name of
/// one of the entries.
pub open spec fn enters_through(pv: ProjectView, path: Seq<Seq<char>>, entries: Seq<FsEntry>) -> bool {
    exists|k: int|
        0 <= k < entries.len() && (#[trigger] entries[k].name@) == pv.path[path.len() as int]
}

/// No project of the list lies strictly below another of the list.
pub open spec fn no_nesting(r: Seq<ProjectView>) -> bool {
    forall|m: int, n: int|
        0 <= m < r.len() && 0 <= n < r.len() && m != n ==> !is_strict_prefix(
            (#[trigger] r[m]).path,
            (#[trigger] r[n]).path,
        )
}

/// Every project of a depth-bounded walk lies strictly below the walk's
/// root path.
proof fn lemma_find_rooted(dir: FsNode, path: Seq<Seq<char>>, depth: nat)
    ensures
        forall|m: int|
            0 <= m < spec_find_projects(dir, path, depth).len() ==> rooted_strictly_below(
                #[trigger] spec_find_projects(dir, path, depth)[m],
                path,
            ),
    decreases depth, dir,
{
    if depth > 0 && dir is Dir {
        lemma_walk_entries_rooted(dir->Dir_entries@, path, depth);
        assert forall|m: int|
            0 <= m < spec_find_projects(dir, path, depth).len() implies rooted_strictly_below(
            spec_find_projects(dir, path, depth)[m],
            path,
        ) by {
            assert(spec_find_projects(dir, path, depth)[m] == spec_walk_entries(
                dir->Dir_entries@,
                path,
                depth,
            )[m]);
        }
    }
}

/// Every project of the walk over `entries` standing at `path` lies
/// strictly below `path` and enters through one of the entries' names.
proof fn lemma_walk_entries_rooted(entries: Seq<FsEntry>, path: Seq<Seq<char>>, depth: nat)
    requires
        depth > 0,
    ensures
        forall|m: int|
            0 <= m < spec_walk_entries(entries, path, depth).len() ==> {
                &&& rooted_strictly_below(
                    #[trigger] spec_walk_entries(entries, path, depth)[m],
                    path,
                )
                &&& enters_through(spec_walk_entries(entries, path, depth)[m], path, entries)
            },
    decreases depth, entries,
{
    if entries.len() == 0 {
        return;
    }
    let e = entries[0];
    let child = path.push(e.name@);
    let head = if e.node is Dir && !spec_hidden(e.name@) {
        match spec_check_for_project(e.node, child) {
            Some(pv) => seq![pv],
            None => spec_find_projects(e.node, child, (depth - 1) as nat),
        }
    } else {
        Seq::<ProjectView>::empty()
    };
    let rest = spec_walk_entries(entries.drop_first(), path, depth);
    assert(spec_walk_entries(entries, path, depth) == head + rest);
    assert(child.take(path.len() as int) =~= path);
    if e.node is Dir && !spec_hidden(e.name@) && spec_check_for_project(e.node, child) is None {
        lemma_find_rooted(e.node, child, (depth - 1) as nat);
    }
    assert forall|m: int| 0 <= m < head.len() implies rooted_strictly_below(head[m], path)
        && enters_through(head[m], path, entries) by {
        let pv = head[m];
        assert(rooted_strictly_below(pv, child) || pv.path == child);
        if pv.path == child {
            assert(pv.path[path.len() as int] == e.name@);
            assert(pv.path.take(path.len() as int) =~= path);
        } else {
            assert(pv.path.take(child.len() as int) == child);
            assert(pv.path.take(child.len() as int)[path.len() as int] == pv.path[path.len() as int]);
            assert(child[path.len() as int] == e.name@);
            assert forall|i: int| 0 <= i < path.len() implies pv.path[i] == path[i] by {
                assert(pv.path.take(child.len() as int)[i] == pv.path[i]);
                assert(child[i] == path[i]);
            }
            assert(pv.path.take(path.len() as int) =~= path);
        }
        assert(entries[0].name@ == pv.path[path.len() as int]);
    }
    lemma_walk_entries_rooted(entries.drop_first(), path, depth);
    assert forall|m: int| 0 <= m < spec_walk_entries(entries, path, depth).len() implies {
        &&& rooted_strictly_below(spec_walk_entries(entries, path, depth)[m], path)
        &&& enters_through(spec_walk_entries(entries, path, depth)[m], path, entries)
    } by {
        let pv = spec_walk_entries(entries, path, depth)[m];
        if m < head.len() {
            assert(pv == head[m]);
        } else {
            assert(pv == rest[m - head.len()]);
            assert(rooted_strictly_below(pv, path));
            let k = choose|k: int|
                0 <= k < entries.drop_first().len() && (#[trigger] entries.drop_first()[k].name@)
                    == pv.path[path.len() as int];
            assert(entries[k + 1].name@ == pv.path[path.len() as int]);
        }
    }
}

/// Neither of two component lists that agree up to `plen` but differ at
/// component `plen` is a strict prefix of the other.
proof fn lemma_differ_not_nested(a: Seq<Seq<char>>, b: Seq<Seq<char>>, plen: int)
    requires
        0 <= plen < a.len(),
        plen < b.len(),
        a[plen] != b[plen],
    ensures
        !is_strict_prefix(a, b),
        !is_strict_prefix(b, a),
{
    if is_strict_prefix(a, b) {
        assert(b.take(a.len() as int)[plen] == b[plen]);
    }
    if is_strict_prefix(b, a) {
        assert(a.take(b.len() as int)[plen] == a[plen]);
    }
}

/// The projects of one depth-bounded walk never nest: no discovered
/// project's path is a strict prefix of another's.  In particular a
/// recognized project's own artifact directories, which the walk does not
/// descend into, are never returned as projects themselves.
pub proof fn lemma_find_projects_no_nesting(dir: FsNode, path: Seq<Seq<char>>, depth: nat)
    requires
        fs_wf(dir),
    ensures
        no_nesting(spec_find_projects(dir, path, depth)),
    decreases depth, dir,
{
    if depth > 0 && dir is Dir {
        lemma_walk_entries_no_nesting(dir->Dir_entries@, path, depth);
    }
}

/// The projects of the walk over `entries` never nest, provided the entry
/// names are distinct and the children are well-formed snapshots.
proof fn lemma_walk_entries_no_nesting(entries: Seq<FsEntry>, path: Seq<Seq<char>>, depth: nat)
    requires
        depth > 0,
        forall|i: int, j: int|
            0 <= i < j < entries.len() ==> (#[trigger] entries[i].name@) != (
            #[trigger] entries[j].name@),
        forall|k: int| 0 <= k < entries.len() ==> fs_wf(#[trigger] entries[k].node),
    ensures
        no_nesting(spec_walk_entries(entries, path, depth)),
    decreases depth, entries,
{
    if entries.len() == 0 {
        return;
    }
    let e = entries[0];
    let child = path.push(e.name@);
    let head = if e.node is Dir && !spec_hidden(e.name@) {
        match spec_check_for_project(e.node, child) {
            Some(pv) => seq![pv],
            None => spec_find_projects(e.node, child, (depth - 1) as nat),
        }
    } else {
        Seq::<ProjectView>::empty()
    };
    let rest = spec_walk_entries(entries.drop_first(), path, depth);
    let whole = spec_walk_entries(entries, path, depth);
    assert(whole == head + rest);
    assert(child.take(path.len() as int) =~= path);
    // Within the head: a single classified project, or an inner walk that
    // does not nest by induction.
    if e.node is Dir && !spec_hidden(e.name@) {
        if spec_check_for_project(e.node, child) is None {
            assert(fs_wf(e.node));
            lemma_find_projects_no_nesting(e.node, child, (depth - 1) as nat);
            lemma_find_rooted(e.node, child, (depth - 1) as nat);
        }
    }
    assert(no_nesting(head));
    // Every head project enters through the first entry's name.
    assert forall|m: int| 0 <= m < head.len() implies rooted_strictly_below(head[m], path)
        && head[m].path[path.len() as int] == e.name@ by {
        let pv = head[m];
        if pv.path == child {
            assert(pv.path[path.len() as int] == e.name@);
            assert(pv.path.take(path.len() as int) =~= path);
        } else {
            assert(rooted_strictly_below(pv, child));
            assert(pv.path.take(child.len() as int) == child);
            assert(pv.path.take(child.len() as int)[path.len() as int] == pv.path[path.len()
                as int]);
            assert forall|i: int| 0 <= i < path.len() implies pv.path[i] == path[i] by {
                assert(pv.path.take(child.len() as int)[i] == pv.path[i]);
                assert(child[i] == path[i]);
            }
            assert(pv.path.take(path.len() as int) =~= path);
        }
    }
    // The remaining entries: distinct names, well-formed children.
    assert forall|i: int, j: int| 0 <= i < j < entries.drop_first().len() implies (
    #[trigger] entries.drop_first()[i].name@) != (#[trigger] entries.drop_first()[j].name@) by {
        assert(entries.drop_first()[i] == entries[i + 1]);
        assert(entries.drop_first()[j] == entries[j + 1]);
    }
    assert forall|k: int| 0 <= k < entries.drop_first().len() implies fs_wf(
        #[trigger] entries.drop_first()[k].node,
    ) by {
        assert(entries.drop_first()[k] == entries[k + 1]);
    }
    lemma_walk_entries_no_nesting(entries.drop_first(), path, depth);
    assert(no_nesting(rest));
    lemma_walk_entries_rooted(entries.drop_first(), path, depth);
    // Every rest project enters through a later entry's name, which differs
    // from the first entry's.
    assert forall|m: int| 0 <= m < rest.len() implies rooted_strictly_below(rest[m], path)
        && rest[m].path[path.len() as int] != e.name@ by {
        let k = choose|k: int|
            0 <= k < entries.drop_first().len() && (#[trigger] entries.drop_first()[k].name@)
                == rest[m].path[path.len() as int];
        assert(entries.drop_first()[k] == entries[k + 1]);
        assert(entries[k + 1].name@ != entries[0].name@);
    }
    assert forall|m: int, n: int|
        0 <= m < whole.len() && 0 <= n < whole.len() && m != n implies !is_strict_prefix(
        whole[m].path,
        whole[n].path,
    ) by {
        let a = whole[m];
        let b = whole[n];
        if m < head.len() && n < head.len() {
            assert(a == head[m] && b == head[n]);
            assert(!is_strict_prefix(head[m].path, head[n].path));
        } else if m >= head.len() && n >= head.len() {
            assert(a == rest[m - head.len()] && b == rest[n - head.len()]);
            assert(!is_strict_prefix(rest[m - head.len()].path, rest[n - head.len()].path));
        } else if m < head.len() {
            assert(a == head[m] && b == rest[n - head.len()]);
            lemma_differ_not_nested(a.path, b.path, path.len() as int);
        } else {
            assert(a == rest[m - head.len()] && b == head[n]);
            lemma_differ_not_nested(a.path, b.path, path.len() as int);
        }
    }
}

/// Every project of a version-control-aware walk lies strictly below the
/// walk's root path.
proof fn lemma_git_rooted(dir: FsNode, path: Seq<Seq<char>>)
    ensures
        forall|m: int|
            0 <= m < spec_find_git_projects(dir, path).len() ==> rooted_strictly_below(
                #[trigger] spec_find_git_projects(dir, path)[m],
                path,
            ),
    decreases dir, 0nat,
{
    if dir is Dir {
        lemma_git_entries_rooted(dir->Dir_entries@, path);
        assert forall|m: int|
            0 <= m < spec_find_git_projects(dir, path).len() implies rooted_strictly_below(
            spec_find_git_projects(dir, path)[m],
            path,
        ) by {
            assert(spec_find_git_projects(dir, path)[m] == spec_git_entries(
                dir->Dir_entries@,
                path,
            )[m]);
        }
    }
}

/// Every project of the version-control-aware walk over `entries` lies
/// strictly below `path` and enters through one of the entries' names.
proof fn lemma_git_entries_rooted(entries: Seq<FsEntry>, path: Seq<Seq<char>>)
    ensures
        forall|m: int|
            0 <= m < spec_git_entries(entries, path).len() ==> {
                &&& rooted_strictly_below(#[trigger] spec_git_entries(entries, path)[m], path)
                &&& enters_through(spec_git_entries(entries, path)[m], path, entries)
            },
    decreases entries, 1nat,
{
    if entries.len() == 0 {
        return;
    }
    let e = entries[0];
    let child = path.push(e.name@);
    let head = if e.node is Dir && !spec_hidden(e.name@) {
        if spec_is_repo(e.node) {
            match spec_check_for_project(e.node, child) {
                Some(pv) => seq![pv],
                None => spec_find_projects(e.node, child, GIT_FALLBACK_DEPTH as nat),
            }
        } else {
            spec_find_git_projects(e.node, child)
        }
    } else {
        Seq::<ProjectView>::empty()
    };
    let rest = spec_git_entries(entries.drop_first(), path);
    assert(spec_git_entries(entries, path) == head + rest);
    assert(child.take(path.len() as int) =~= path);
    if e.node is Dir && !spec_hidden(e.name@) {
        if spec_is_repo(e.node) {
            if spec_check_for_project(e.node, child) is None {
                lemma_find_rooted(e.node, child, GIT_FALLBACK_DEPTH as nat);
            }
        } else {
            lemma_git_rooted(e.node, child);
        }
    }
    assert forall|m: int| 0 <= m < head.len() implies rooted_strictly_below(head[m], path)
        && enters_through(head[m], path, entries) by {
        let pv = head[m];
        assert(rooted_strictly_below(pv, child) || pv.path == child);
        if pv.path == child {
            assert(pv.path[path.len() as int] == e.name@);
            assert(pv.path.take(path.len() as int) =~= path);
        } else {
            assert(pv.path.take(child.len() as int) == child);
            assert(pv.path.take(child.len() as int)[path.len() as int] == pv.path[path.len()
                as int]);
            assert forall|i: int| 0 <= i < path.len() implies pv.path[i] == path[i] by {
                assert(pv.path.take(child.len() as int)[i] == pv.path[i]);
                assert(child[i] == path[i]);
            }
            assert(pv.path.take(path.len() as int) =~= path);
        }
        assert(entries[0].name@ == pv.path[path.len() as int]);
    }
    lemma_git_entries_rooted(entries.drop_first(), path);
    assert forall|m: int| 0 <= m < spec_git_entries(entries, path).len() implies {
        &&& rooted_strictly_below(spec_git_entries(entries, path)[m], path)
        &&& enters_through(spec_git_entries(entries, path)[m], path, entries)
    } by {
        let pv = spec_git_entries(entries, path)[m];
        if m < head.len() {
            assert(pv == head[m]);
        } else {
            assert(pv == rest[m - head.len()]);
            let k = choose|k: int|
                0 <= k < entries.drop_first().len() && (#[trigger] entries.drop_first()[k].name@)
                    == pv.path[path.len() as int];
            assert(entries[k + 1].name@ == pv.path[path.len() as int]);
        }
    }
}

/// The projects of one version-control-aware walk never nest: no
/// discovered project's path is a strict prefix of another's, so a
/// recognized project's own artifact directories are never returned as
/// projects themselves.
pub proof fn lemma_find_git_projects_no_nesting(dir: FsNode, path: Seq<Seq<char>>)
    requires
        fs_wf(dir),
    ensures
        no_nesting(spec_find_git_projects(dir, path)),
    decreases dir, 0nat,
{
    if dir is Dir {
        lemma_git_entries_no_nesting(dir->Dir_entries@, path);
    }
}

/// The projects of the version-control-aware walk over `entries` never
/// nest, provided the entry names are distinct and the children are
/// well-formed snapshots.
proof fn lemma_git_entries_no_nesting(entries: Seq<FsEntry>, path: Seq<Seq<char>>)
    requires
        forall|i: int, j: int|
            0 <= i < j < entries.len() ==> (#[trigger] entries[i].name@) != (
            #[trigger] entries[j].name@),
        forall|k: int| 0 <= k < entries.len() ==> fs_wf(#[trigger] entries[k].node),
    ensures
        no_nesting(spec_git_entries(entries, path)),
    decreases entries, 1nat,
{
    if entries.len() == 0 {
        return;
    }
    let e = entries[0];
    let child = path.push(e.name@);
    let head = if e.node is Dir && !spec_hidden(e.name@) {
        if spec_is_repo(e.node) {
            match spec_check_for_project(e.node, child) {
                Some(pv) => seq![pv],
                None => spec_find_projects(e.node, child, GIT_FALLBACK_DEPTH as nat),
            }
        } else {
            spec_find_git_projects(e.node, child)
        }
    } else {
        Seq::<ProjectView>::empty()
    };
    let rest = spec_git_entries(entries.drop_first(), path);
    let whole = spec_git_entries(entries, path);
    assert(whole == head + rest);
    assert(child.take(path.len() as int) =~= path);
    if e.node is Dir && !spec_hidden(e.name@) {
        assert(fs_wf(e.node));
        if spec_is_repo(e.node) {
            if spec_check_for_project(e.node, child) is None {
                lemma_find_projects_no_nesting(e.node, child, GIT_FALLBACK_DEPTH as nat);
                lemma_find_rooted(e.node, child, GIT_FALLBACK_DEPTH as nat);
            }
        } else {
            lemma_find_git_projects_no_nesting(e.node, child);
            lemma_git_rooted(e.node, child);
        }
    }
    assert(no_nesting(head));
    assert forall|m: int| 0 <= m < head.len() implies rooted_strictly_below(head[m], path)
        && head[m].path[path.len() as int] == e.name@ by {
        let pv = head[m];
        if pv.path == child {
            assert(pv.path[path.len() as int] == e.name@);
            assert(pv.path.take(path.len() as int) =~= path);
        } else {
            assert(rooted_strictly_below(pv, child));
            assert(pv.path.take(child.len() as int) == child);
            assert(pv.path.take(child.len() as int)[path.len() as int] == pv.path[path.len()
                as int]);
            assert forall|i: int| 0 <= i < path.len() implies pv.path[i] == path[i] by {
                assert(pv.path.take(child.len() as int)[i] == pv.path[i]);
                assert(child[i] == path[i]);
            }
            assert(pv.path.take(path.len() as int) =~= path);
        }
    }
    assert forall|i: int, j: int| 0 <= i < j < entries.drop_first().len() implies (
    #[trigger] entries.drop_first()[i].name@) != (#[trigger] entries.drop_first()[j].name@) by {
        assert(entries.drop_first()[i] == entries[i + 1]);
        assert(entries.drop_first()[j] == entries[j + 1]);
    }
    assert forall|k: int| 0 <= k < entries.drop_first().len() implies fs_wf(
        #[trigger] entries.drop_first()[k].node,
    ) by {
        assert(entries.drop_first()[k] == entries[k + 1]);
    }
    lemma_git_entries_no_nesting(entries.drop_first(), path);
    assert(no_nesting(rest));
    lemma_git_entries_rooted(entries.drop_first(), path);
    assert forall|m: int| 0 <= m < rest.len() implies rooted_strictly_below(rest[m], path)
        && rest[m].path[path.len() as int] != e.name@ by {
        let k = choose|k: int|
            0 <= k < entries.drop_first().len() && (#[trigger] entries.drop_first()[k].name@)
                == rest[m].path[path.len() as int];
        assert(entries.drop_first()[k] == entries[k + 1]);
        assert(entries[k + 1].name@ != entries[0].name@);
    }
    assert forall|m: int, n: int|
        0 <= m < whole.len() && 0 <= n < whole.len() && m != n implies !is_strict_prefix(
        whole[m].path,
        whole[n].path,
    ) by {
        let a = whole[m];
        let b = whole[n];
        if m < head.len() && n < head.len() {
            assert(a == head[m] && b == head[n]);
            assert(!is_strict_prefix(head[m].path, head[n].path));
        } else if m >= head.len() && n >= head.len() {
            assert(a == rest[m - head.len()] && b == rest[n - head.len()]);
            assert(!is_strict_prefix(rest[m - head.len()].path, rest[n - head.len()].path));
        } else if m < head.len() {
            assert(a == head[m] && b == rest[n - head.len()]);
            lemma_differ_not_nested(a.path, b.path, path.len() as int);
        } else {
            assert(a == rest[m - head.len()] && b == head[n]);
            lemma_differ_not_nested(a.path, b.path, path.len() as int);
        }
    }
}

} // verus!
