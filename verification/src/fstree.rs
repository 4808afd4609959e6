//! A pure model of a filesystem tree.
//!
//! The walker, the classifier and the sizing logic all operate on values of
//! [`FsNode`] instead of on the live filesystem.  The surrounding binary
//! builds a snapshot of the directory tree it wants to scan and hands it to
//! the library; everything from there on is verified.

use vstd::prelude::*;

use crate::strutil::str_eq;

verus! {

/// One directory entry: a name together with the node it leads to.
pub struct FsEntry {
    /// File or directory name of this entry (one path component).
    pub name: String,
    /// The file or directory the name refers to.
    pub node: FsNode,
}

/// A snapshot of one node of the filesystem tree.
pub enum FsNode {
    /// A regular file; only its size in bytes is of interest.
    File {
        /// Size of the file in bytes.
        size: u64,
    },
    /// A directory with its entries, in the order the snapshot listed them.
    Dir {
        /// Whole days since the directory itself was last modified, at the
        /// time the snapshot was taken; `None` when the timestamp could not
        /// be read.
        modified_days: Option<u64>,
        /// The entries of the directory.
        entries: Vec<FsEntry>,
    },
}

/// Total number of bytes stored beneath a node: a file contributes its own
/// size, a directory the sum over its entries.
pub open spec fn node_size(n: FsNode) -> nat
    decreases n,
{
    match n {
        FsNode::File { size } => size as nat,
        FsNode::Dir { entries, .. } => entries_size(entries@),
    }
}

/// Sum of [`node_size`] over a sequence of directory entries.
pub open spec fn entries_size(s: Seq<FsEntry>) -> nat
    decreases s,
{
    if s.len() == 0 {
        0
    } else {
        node_size(s[0].node) + entries_size(s.drop_first())
    }
}

/// The snapshot is shaped like a real filesystem: within each directory,
/// entry names are pairwise distinct, recursively.
pub open spec fn fs_wf(n: FsNode) -> bool
    decreases n,
{
    match n {
        FsNode::File { .. } => true,
        FsNode::Dir { entries, .. } => {
            &&& forall|i: int, j: int|
                0 <= i < j < entries@.len() ==> (#[trigger] entries@[i].name@) != (
                #[trigger] entries@[j].name@)
            &&& forall|k: int| 0 <= k < entries@.len() ==> fs_wf(#[trigger] entries@[k].node)
        },
    }
}

/// The node behind the first entry named `name`, if any.
pub open spec fn spec_child(entries: Seq<FsEntry>, name: Seq<char>) -> Option<FsNode>
    decreases entries.len(),
{
    if entries.len() == 0 {
        None
    } else if entries[0].name@ == name {
        Some(entries[0].node)
    } else {
        spec_child(entries.drop_first(), name)
    }
}

/// The node a relative path leads to from `n`, if the whole path resolves.
/// The empty path resolves to `n` itself; a path cannot descend into a file.
pub open spec fn spec_lookup(n: FsNode, path: Seq<Seq<char>>) -> Option<FsNode>
    decreases path.len(),
{
    if path.len() == 0 {
        Some(n)
    } else {
        match n {
            FsNode::File { .. } => None,
            FsNode::Dir { entries, .. } => match spec_child(entries@, path[0]) {
                None => None,
                Some(c) => spec_lookup(c, path.drop_first()),
            },
        }
    }
}

/// Days since last modification recorded for a node: directories carry the
/// timestamp in the snapshot, files none.
pub open spec fn spec_modified_days(n: FsNode) -> Option<u64> {
    match n {
        FsNode::File { .. } => None,
        FsNode::Dir { modified_days, .. } => modified_days,
    }
}

/// Is the node a directory?
pub fn is_dir(n: &FsNode) -> (r: bool)
    ensures
        r == (*n is Dir),
{
    matches!(n, FsNode::Dir { .. })
}

/// Reads the recorded days since last modification, as
/// [`spec_modified_days`] describes.
pub fn modified_days_of(n: &FsNode) -> (r: Option<u64>)
    ensures
        r == spec_modified_days(*n),
{
    match n {
        FsNode::File { .. } => None,
        FsNode::Dir { modified_days, .. } => *modified_days,
    }
}

/// `m` clamped to the largest value a `u64` can hold.
pub open spec fn sat64(m: nat) -> nat {
    if m > u64::MAX {
        u64::MAX as nat
    } else {
        m
    }
}

/// The first entry of `entries` named `name`, if any.
pub fn child_of<'a>(entries: &'a Vec<FsEntry>, name: &str) -> (r: Option<&'a FsNode>)
    ensures
        match r {
            Some(c) => spec_child(entries@, name@) == Some(*c),
            None => spec_child(entries@, name@) is None,
        },
{
    let mut i: usize = 0;
    proof {
        assert(entries@.skip(0) =~= entries@);
    }
    while i < entries.len()
        invariant
            0 <= i <= entries.len(),
            spec_child(entries@, name@) == spec_child(entries@.skip(i as int), name@),
        decreases entries.len() - i,
    {
        if str_eq(entries[i].name.as_str(), name) {
            proof {
                assert(entries@.skip(i as int)[0] == entries@[i as int]);
            }
            return Some(&entries[i].node);
        }
        proof {
            assert(entries@.skip(i as int).drop_first() =~= entries@.skip(i as int + 1));
        }
        i = i + 1;
    }
    None
}

/// Resolves a relative path from `n`, as [`spec_lookup`] describes.
pub fn lookup<'a>(n: &'a FsNode, path: &Vec<String>, from: usize) -> (r: Option<&'a FsNode>)
    requires
        from <= path.len(),
    ensures
        match r {
            Some(c) => spec_lookup(*n, path.deep_view().skip(from as int)) == Some(*c),
            None => spec_lookup(*n, path.deep_view().skip(from as int)) is None,
        },
    decreases path.len() - from,
{
    if from == path.len() {
        proof {
            assert(path.deep_view().skip(from as int).len() == 0);
        }
        return Some(n);
    }
    proof {
        assert(path.deep_view().skip(from as int)[0] == path@[from as int]@);
        assert(path.deep_view().skip(from as int).drop_first() =~= path.deep_view().skip(
            from as int + 1,
        ));
    }
    match n {
        FsNode::File { .. } => None,
        FsNode::Dir { entries, .. } => match child_of(entries, path[from].as_str()) {
            None => None,
            Some(c) => lookup(c, path, from + 1),
        },
    }
}

/// Saturating addition on `u64`.
pub fn sat_add(a: u64, b: u64) -> (r: u64)
    ensures
        r as nat == sat64(a as nat + b as nat),
{
    if a > u64::MAX - b {
        u64::MAX
    } else {
        a + b
    }
}

/// Appending an entry adds its size to the sum of the sequence.
proof fn lemma_entries_size_push(s: Seq<FsEntry>, e: FsEntry)
    ensures
        entries_size(s.push(e)) == entries_size(s) + node_size(e.node),
    decreases s.len(),
{
    if s.len() == 0 {
        assert(s.push(e)[0] == e);
        assert(s.push(e).drop_first() =~= Seq::<FsEntry>::empty());
        assert(entries_size(Seq::<FsEntry>::empty()) == 0);
    } else {
        lemma_entries_size_push(s.drop_first(), e);
        assert(s.push(e)[0] == s[0]);
        assert(s.push(e).drop_first() =~= s.drop_first().push(e));
    }
}

/// Total size beneath a node, clamped to `u64`: best-effort accounting of the
/// bytes that removing the node would reclaim.
#[verifier::loop_isolation(false)]
pub fn compute_size(n: &FsNode) -> (r: u64)
    ensures
        r as nat == sat64(node_size(*n)),
    decreases *n,
{
    match n {
        FsNode::File { size } => *size,
        FsNode::Dir { entries, .. } => {
            let mut acc: u64 = 0;
            let mut i: usize = 0;
            while i < entries.len()
                invariant
                    0 <= i <= entries.len(),
                    acc as nat == sat64(entries_size(entries@.take(i as int))),
                decreases entries.len() - i,
            {
                proof {
                    assert(decreases_to!(*n => entries@[i as int].node));
                }
                let sub = compute_size(&entries[i].node);
                acc = sat_add(acc, sub);
                proof {
                    lemma_entries_size_push(entries@.take(i as int), entries@[i as int]);
                    assert(entries@.take(i as int).push(entries@[i as int]) =~= entries@.take(
                        i as int + 1,
                    ));
                }
                i = i + 1;
            }
            proof {
                assert(entries@.take(entries@.len() as int) =~= entries@);
            }
            acc
        },
    }
}

/// Bytes a single artifact path contributes: nothing when it does not
/// resolve, the whole size beneath it when it does.
pub open spec fn spec_path_size(dir: FsNode, path: Seq<Seq<char>>) -> nat {
    match spec_lookup(dir, path) {
        None => 0,
        Some(c) => node_size(c),
    }
}

/// Total bytes reclaimable through a list of artifact paths, resolved
/// relative to `dir`.
pub open spec fn spec_rm_size(dir: FsNode, paths: Seq<Seq<Seq<char>>>) -> nat
    decreases paths.len(),
{
    if paths.len() == 0 {
        0
    } else {
        spec_path_size(dir, paths[0]) + spec_rm_size(dir, paths.drop_first())
    }
}

/// Appending a path adds its contribution to the total.
proof fn lemma_rm_size_push(dir: FsNode, s: Seq<Seq<Seq<char>>>, p: Seq<Seq<char>>)
    ensures
        spec_rm_size(dir, s.push(p)) == spec_rm_size(dir, s) + spec_path_size(dir, p),
    decreases s.len(),
{
    if s.len() == 0 {
        assert(s.push(p)[0] == p);
        assert(s.push(p).drop_first() =~= Seq::<Seq<Seq<char>>>::empty());
        assert(spec_rm_size(dir, Seq::<Seq<Seq<char>>>::empty()) == 0);
    } else {
        lemma_rm_size_push(dir, s.drop_first(), p);
        assert(s.push(p)[0] == s[0]);
        assert(s.push(p).drop_first() =~= s.drop_first().push(p));
    }
}

/// Artifact paths that all fail to resolve contribute nothing: sizing a list
/// of paths that do not exist yields zero, with no failure.
pub proof fn lemma_rm_size_missing(dir: FsNode, paths: Seq<Seq<Seq<char>>>)
    requires
        forall|k: int| 0 <= k < paths.len() ==> spec_lookup(dir, #[trigger] paths[k]) is None,
    ensures
        spec_rm_size(dir, paths) == 0,
    decreases paths.len(),
{
    if paths.len() > 0 {
        assert(spec_lookup(dir, paths[0]) is None);
        assert forall|k: int| 0 <= k < paths.drop_first().len() implies spec_lookup(
            dir,
            #[trigger] paths.drop_first()[k],
        ) is None by {
            assert(paths.drop_first()[k] == paths[k + 1]);
        }
        lemma_rm_size_missing(dir, paths.drop_first());
    }
}

/// Best-effort reclaimable size: the sum, clamped to `u64`, of the sizes
/// beneath the artifact paths that resolve from `dir`; paths that do not
/// resolve contribute zero.
#[verifier::loop_isolation(false)]
pub fn get_rm_size(dir: &FsNode, rm_paths: &Vec<Vec<String>>) -> (r: u64)
    ensures
        r as nat == sat64(spec_rm_size(*dir, rm_paths.deep_view())),
{
    let ghost dv = rm_paths.deep_view();
    let mut acc: u64 = 0;
    let mut i: usize = 0;
    proof {
        assert(spec_rm_size(*dir, dv.take(0)) == 0);
    }
    while i < rm_paths.len()
        invariant
            0 <= i <= rm_paths.len(),
            acc as nat == sat64(spec_rm_size(*dir, dv.take(i as int))),
        decreases rm_paths.len() - i,
    {
        proof {
            assert(dv[i as int] == rm_paths@[i as int].deep_view());
            assert(rm_paths@[i as int].deep_view().skip(0) =~= dv[i as int]);
        }
        let sub: u64 = match lookup(dir, &rm_paths[i], 0) {
            None => 0,
            Some(c) => compute_size(c),
        };
        acc = sat_add(acc, sub);
        proof {
            lemma_rm_size_push(*dir, dv.take(i as int), dv[i as int]);
            assert(dv.take(i as int).push(dv[i as int]) =~= dv.take(i as int + 1));
        }
        i = i + 1;
    }
    proof {
        assert(dv.take(rm_paths@.len() as int) =~= dv);
    }
    acc
}

} // verus!
